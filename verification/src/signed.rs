//! Decimals with a sign, for the solver's intermediate values.
//!
//! A signed decimal is a magnitude and a flag that says whether the value
//! lies below zero. Zero may carry either flag. Every operation takes and
//! gives values that may be missing, and gives none where an operand is
//! missing or a step on the magnitudes fails.

use vstd::prelude::*;
use crate::fixed::limit;
use crate::fixed::over_v;
use crate::fixed::plus_v;
use crate::fixed::times_v;
use crate::fixed::val;
use crate::fixed::Dec256;

verus! {

/// A signed decimal as a number of atomics and a sign.
pub struct SignedView {
    pub val: nat,
    pub neg: bool,
}

/// A signed decimal.
#[derive(Clone, Copy, Debug)]
pub struct Signed {
    /// The magnitude.
    pub val: Dec256,
    /// Whether the value lies below zero.
    pub neg: bool,
}

impl View for Signed {
    type V = SignedView;

    open spec fn view(&self) -> SignedView {
        SignedView { val: self.val@, neg: self.neg }
    }
}

/// The view of a signed decimal that may be missing.
pub open spec fn sval(x: Option<Signed>) -> Option<SignedView> {
    match x {
        Some(v) => Some(v@),
        None => None,
    }
}

/// A decimal as a signed decimal.
pub open spec fn pos_v(a: Option<nat>) -> Option<SignedView> {
    match a {
        Some(x) => Some(SignedView { val: x, neg: false }),
        None => None,
    }
}

/// The sum. Of two values with different signs and the same magnitude it
/// is a zero with the sign of the second.
pub open spec fn sadd_v(a: Option<SignedView>, b: Option<SignedView>) -> Option<SignedView> {
    match (a, b) {
        (Some(x), Some(y)) => if x.neg == y.neg {
            if x.val + y.val < limit() {
                Some(SignedView { val: x.val + y.val, neg: x.neg })
            } else {
                None
            }
        } else if x.val > y.val {
            Some(SignedView { val: (x.val - y.val) as nat, neg: x.neg })
        } else {
            Some(SignedView { val: (y.val - x.val) as nat, neg: y.neg })
        },
        _ => None,
    }
}

/// The value with the other sign.
pub open spec fn sneg_v(a: Option<SignedView>) -> Option<SignedView> {
    match a {
        Some(x) => Some(SignedView { val: x.val, neg: !x.neg }),
        None => None,
    }
}

/// The difference.
pub open spec fn ssub_v(a: Option<SignedView>, b: Option<SignedView>) -> Option<SignedView> {
    sadd_v(a, sneg_v(b))
}

/// The product.
pub open spec fn smul_v(a: Option<SignedView>, b: Option<SignedView>) -> Option<SignedView> {
    match (a, b) {
        (Some(x), Some(y)) => match times_v(Some(x.val), Some(y.val)) {
            Some(v) => Some(SignedView { val: v, neg: x.neg != y.neg }),
            None => None,
        },
        _ => None,
    }
}

/// The quotient.
pub open spec fn sdiv_v(a: Option<SignedView>, b: Option<SignedView>) -> Option<SignedView> {
    match (a, b) {
        (Some(x), Some(y)) => match over_v(Some(x.val), Some(y.val)) {
            Some(v) => Some(SignedView { val: v, neg: x.neg != y.neg }),
            None => None,
        },
        _ => None,
    }
}

/// The square. The square of zero is a zero without sign.
pub open spec fn ssquare_v(a: Option<SignedView>) -> Option<SignedView> {
    match a {
        Some(x) => if x.val == 0 {
            Some(SignedView { val: 0, neg: false })
        } else {
            pos_v(times_v(Some(x.val), Some(x.val)))
        },
        None => None,
    }
}

/// The cube. The cube of zero is a zero without sign.
pub open spec fn scube_v(a: Option<SignedView>) -> Option<SignedView> {
    match a {
        Some(x) => if x.val == 0 {
            Some(SignedView { val: 0, neg: false })
        } else {
            match times_v(times_v(Some(x.val), Some(x.val)), Some(x.val)) {
                Some(v) => Some(SignedView { val: v, neg: x.neg }),
                None => None,
            }
        },
        None => None,
    }
}

/// The distance between two values.
pub open spec fn sdiff_v(a: Option<SignedView>, b: Option<SignedView>) -> Option<nat> {
    match (a, b) {
        (Some(x), Some(y)) => if x.neg == y.neg {
            if x.val >= y.val {
                Some((x.val - y.val) as nat)
            } else {
                Some((y.val - x.val) as nat)
            }
        } else {
            plus_v(Some(x.val), Some(y.val))
        },
        _ => None,
    }
}

/// The value as a decimal, where it does not lie below zero.
pub open spec fn unsigned_v(a: Option<SignedView>) -> Option<nat> {
    match a {
        Some(x) => if !x.neg || x.val == 0 {
            Some(x.val)
        } else {
            None
        },
        None => None,
    }
}

/// A decimal as a signed decimal.
pub fn pos(a: Option<Dec256>) -> (r: Option<Signed>)
    ensures
        sval(r) == pos_v(val(a)),
{
    match a {
        Some(x) => Some(Signed { val: x, neg: false }),
        None => None,
    }
}

/// The sum.
pub fn sadd(a: Option<Signed>, b: Option<Signed>) -> (r: Option<Signed>)
    ensures
        sval(r) == sadd_v(sval(a), sval(b)),
{
    match (a, b) {
        (Some(x), Some(y)) => if x.neg == y.neg {
            match x.val.checked_add(y.val) {
                Some(v) => Some(Signed { val: v, neg: x.neg }),
                None => None,
            }
        } else if y.val.lt(x.val) {
            Some(Signed { val: x.val.diff(y.val), neg: x.neg })
        } else {
            Some(Signed { val: y.val.diff(x.val), neg: y.neg })
        },
        _ => None,
    }
}

/// The value with the other sign.
pub fn sneg(a: Option<Signed>) -> (r: Option<Signed>)
    ensures
        sval(r) == sneg_v(sval(a)),
{
    match a {
        Some(x) => Some(Signed { val: x.val, neg: !x.neg }),
        None => None,
    }
}

/// The difference.
pub fn ssub(a: Option<Signed>, b: Option<Signed>) -> (r: Option<Signed>)
    ensures
        sval(r) == ssub_v(sval(a), sval(b)),
{
    sadd(a, sneg(b))
}

/// The product.
pub fn smul(a: Option<Signed>, b: Option<Signed>) -> (r: Option<Signed>)
    ensures
        sval(r) == smul_v(sval(a), sval(b)),
{
    match (a, b) {
        (Some(x), Some(y)) => match x.val.checked_mul(y.val) {
            Some(v) => Some(Signed { val: v, neg: x.neg != y.neg }),
            None => None,
        },
        _ => None,
    }
}

/// The quotient.
pub fn sdiv(a: Option<Signed>, b: Option<Signed>) -> (r: Option<Signed>)
    ensures
        sval(r) == sdiv_v(sval(a), sval(b)),
{
    match (a, b) {
        (Some(x), Some(y)) => match x.val.checked_div(y.val) {
            Some(v) => Some(Signed { val: v, neg: x.neg != y.neg }),
            None => None,
        },
        _ => None,
    }
}

/// The square.
pub fn ssquare(a: Option<Signed>) -> (r: Option<Signed>)
    ensures
        sval(r) == ssquare_v(sval(a)),
{
    match a {
        Some(x) => if x.val.is_zero() {
            Some(Signed { val: Dec256::zero(), neg: false })
        } else {
            match x.val.checked_mul(x.val) {
                Some(v) => Some(Signed { val: v, neg: false }),
                None => None,
            }
        },
        None => None,
    }
}

/// The cube.
pub fn scube(a: Option<Signed>) -> (r: Option<Signed>)
    ensures
        sval(r) == scube_v(sval(a)),
{
    match a {
        Some(x) => if x.val.is_zero() {
            Some(Signed { val: Dec256::zero(), neg: false })
        } else {
            match x.val.checked_mul(x.val) {
                Some(v) => match v.checked_mul(x.val) {
                    Some(w) => Some(Signed { val: w, neg: x.neg }),
                    None => None,
                },
                None => None,
            }
        },
        None => None,
    }
}

/// The distance between two values.
pub fn sdiff(a: Option<Signed>, b: Option<Signed>) -> (r: Option<Dec256>)
    ensures
        val(r) == sdiff_v(sval(a), sval(b)),
{
    match (a, b) {
        (Some(x), Some(y)) => if x.neg == y.neg {
            Some(x.val.diff(y.val))
        } else {
            x.val.checked_add(y.val)
        },
        _ => None,
    }
}

/// The value as a decimal, where it does not lie below zero.
pub fn unsigned(a: Option<Signed>) -> (r: Option<Dec256>)
    ensures
        val(r) == unsigned_v(sval(a)),
{
    match a {
        Some(x) => if !x.neg || x.val.is_zero() {
            Some(x.val)
        } else {
            None
        },
        None => None,
    }
}

} // verus!
