//! The two curve parameters and their ramp through time.
//!
//! Amplification and gamma are decimals with eighteen fractional digits,
//! held as their atomics in 128 bits. A ramp moves both, each on its own
//! straight line, from the pair in force at `initial_time` to the pair that
//! holds from `future_time` on.

use vstd::prelude::*;
use vstd::arithmetic::div_mod::lemma_div_by_multiple;
use vstd::arithmetic::div_mod::lemma_div_is_ordered;
use vstd::arithmetic::div_mod::lemma_div_multiples_vanish_quotient;
use vstd::pervasive::unreached;
use crate::error::ContractError;
use crate::error::PoolParam;
use crate::fixed::limit;
use crate::fixed::unit;
use crate::fixed::Dec256;

verus! {

/// The least amplification: 0.1.
pub const AMP_MIN: u128 = 100_000_000_000_000_000;

/// The greatest amplification: 100000.
pub const AMP_MAX: u128 = 100_000_000_000_000_000_000_000;

/// The least gamma: 0.00000001.
pub const GAMMA_MIN: u128 = 10_000_000_000;

/// The greatest gamma: 0.02.
pub const GAMMA_MAX: u128 = 20_000_000_000_000_000;

/// The atomics of `1.0` in 128 bits.
pub const UNIT: u128 = 1_000_000_000_000_000_000;

/// A pair of curve parameters, in atomics.
#[derive(Clone, Copy, Debug, PartialEq, Eq, Structural)]
pub struct AmpGamma {
    pub amp: u128,
    pub gamma: u128,
}

impl AmpGamma {
    /// Whether both parameters lie within their bounds.
    pub open spec fn in_bounds(self) -> bool {
        &&& AMP_MIN <= self.amp <= AMP_MAX
        &&& GAMMA_MIN <= self.gamma <= GAMMA_MAX
    }

    /// A pair of parameters, if both lie within their bounds; the
    /// amplification is looked at first.
    pub fn new(amp: u128, gamma: u128) -> (r: Result<AmpGamma, ContractError>)
        ensures
            (AmpGamma { amp, gamma }).in_bounds() ==> r == Ok::<AmpGamma, ContractError>(
                AmpGamma { amp, gamma },
            ),
            !(AMP_MIN <= amp <= AMP_MAX) ==> r matches Err(
                ContractError::IncorrectPoolParam(PoolParam::Amp),
            ),
            AMP_MIN <= amp <= AMP_MAX && !(GAMMA_MIN <= gamma <= GAMMA_MAX) ==> r matches Err(
                ContractError::IncorrectPoolParam(PoolParam::Gamma),
            ),
    {
        if amp < AMP_MIN || amp > AMP_MAX {
            return Err(ContractError::IncorrectPoolParam(PoolParam::Amp));
        }
        if gamma < GAMMA_MIN || gamma > GAMMA_MAX {
            return Err(ContractError::IncorrectPoolParam(PoolParam::Gamma));
        }
        Ok(AmpGamma { amp, gamma })
    }
}

/// One parameter on its line: `from` at `start`, `to` from `end` on, and in
/// between the mean of the two weighted by the time left and the time
/// passed, rounded down.
pub open spec fn ramp_value(from: nat, to: nat, start: nat, end: nat, now: nat) -> nat {
    if now <= start {
        from
    } else if now >= end {
        to
    } else {
        ((from * (end - now) + to * (now - start)) / (end - start)) as nat
    }
}

/// The mean of `from` and `to` with the weights `left` and `passed`.
fn interpolate(from: u128, to: u128, left: u64, passed: u64) -> (r: u128)
    requires
        0 < left + passed <= u64::MAX,
    ensures
        r == (from * left + to * passed) / (left + passed),
{
    let total: u64 = left + passed;
    assert(left * UNIT <= u128::MAX && passed * UNIT <= u128::MAX && total * UNIT <= u128::MAX)
        by (nonlinear_arith)
        requires
            left <= u64::MAX,
            passed <= u64::MAX,
            total <= u64::MAX,
            UNIT == 1_000_000_000_000_000_000,
    ;
    let l = Dec256::raw(left as u128 * UNIT);
    let p = Dec256::raw(passed as u128 * UNIT);
    let t = Dec256::raw(total as u128 * UNIT);
    let ghost sum: int = from * left + to * passed;
    proof {
        assert(from * (left * unit()) == (from * left) * unit()) by (nonlinear_arith);
        assert(to * (passed * unit()) == (to * passed) * unit()) by (nonlinear_arith);
        assert(0 <= from * left && 0 <= to * passed) by (nonlinear_arith);
        lemma_div_by_multiple(from * left, unit() as int);
        lemma_div_by_multiple(to * passed, unit() as int);
        assert(from * left < 0x1_0000_0000_0000_0000_0000_0000_0000_0000_0000_0000_0000_0000
            && to * passed < 0x1_0000_0000_0000_0000_0000_0000_0000_0000_0000_0000_0000_0000)
            by (nonlinear_arith)
            requires
                from <= u128::MAX,
                to <= u128::MAX,
                left <= u64::MAX,
                passed <= u64::MAX,
        ;
        lemma_div_multiples_vanish_quotient(unit() as int, sum, total as int);
        assert(sum * unit() == unit() * sum && total * unit() == unit() * total)
            by (nonlinear_arith);
        let top: int = if from >= to { from as int } else { to as int };
        assert(sum <= top * total) by (nonlinear_arith)
            requires
                sum == from * left + to * passed,
                total == left + passed,
                from <= top,
                to <= top,
                0 <= left,
                0 <= passed,
        ;
        lemma_div_is_ordered(sum, top * total, total as int);
        lemma_div_by_multiple(top, total as int);
    }
    let x = match Dec256::raw(from).checked_mul(l) {
        Some(v) => v,
        None => unreached(),
    };
    let y = match Dec256::raw(to).checked_mul(p) {
        Some(v) => v,
        None => unreached(),
    };
    let s = match x.checked_add(y) {
        Some(v) => v,
        None => unreached(),
    };
    let q = match s.checked_div(t) {
        Some(v) => v,
        None => unreached(),
    };
    match q.to_u128() {
        Some(v) => v,
        None => unreached(),
    }
}

/// A ramp of the curve parameters.
#[derive(Clone, Copy, Debug, PartialEq, Eq, Structural)]
pub struct Ramp {
    /// The parameters at `initial_time`.
    pub initial: AmpGamma,
    /// The parameters from `future_time` on.
    pub future: AmpGamma,
    /// When the ramp started, in seconds.
    pub initial_time: u64,
    /// When the ramp ends, in seconds.
    pub future_time: u64,
}

impl Ramp {
    /// A ramp does not end before it starts, and both of its ends lie
    /// within the bounds of the parameters.
    pub open spec fn wf(self) -> bool {
        &&& self.initial_time <= self.future_time
        &&& self.initial.in_bounds()
        &&& self.future.in_bounds()
    }

    /// The ramp that stands at `pair` from `now` on and before: it has no
    /// length, and both of its ends are `pair`.
    pub open spec fn level(pair: AmpGamma, now: u64) -> Ramp {
        Ramp { initial: pair, future: pair, initial_time: now, future_time: now }
    }

    /// The parameters in force at `now`.
    pub open spec fn current_value(self, now: u64) -> AmpGamma {
        AmpGamma {
            amp: ramp_value(
                self.initial.amp as nat,
                self.future.amp as nat,
                self.initial_time as nat,
                self.future_time as nat,
                now as nat,
            ) as u128,
            gamma: ramp_value(
                self.initial.gamma as nat,
                self.future.gamma as nat,
                self.initial_time as nat,
                self.future_time as nat,
                now as nat,
            ) as u128,
        }
    }

    /// The parameters in force at `now`: the initial pair up to
    /// `initial_time`, the future pair from `future_time` on, and in between
    /// each parameter on its own line.
    pub fn current(&self, now: u64) -> (r: AmpGamma)
        ensures
            r == self.current_value(now),
            r.amp == ramp_value(
                self.initial.amp as nat,
                self.future.amp as nat,
                self.initial_time as nat,
                self.future_time as nat,
                now as nat,
            ),
            r.gamma == ramp_value(
                self.initial.gamma as nat,
                self.future.gamma as nat,
                self.initial_time as nat,
                self.future_time as nat,
                now as nat,
            ),
    {
        if now <= self.initial_time {
            self.initial
        } else if now >= self.future_time {
            self.future
        } else {
            let left: u64 = self.future_time - now;
            let passed: u64 = now - self.initial_time;
            AmpGamma {
                amp: interpolate(self.initial.amp, self.future.amp, left, passed),
                gamma: interpolate(self.initial.gamma, self.future.gamma, left, passed),
            }
        }
    }
}

/// The least time between two starts of a ramp, and the least length of a
/// ramp: a day.
pub const MIN_AMP_CHANGING_TIME: u64 = 86_400;

/// The most that a ramp may change a parameter: tenfold, as a decimal.
pub const MAX_CHANGE: u128 = 10_000_000_000_000_000_000;

/// Whether a ramp from `from` to `to` changes a parameter more than
/// tenfold, up or down.
pub open spec fn changes_too_much(from: u128, to: u128) -> bool {
    let low = if from <= to {
        from
    } else {
        to
    };
    let high = if from <= to {
        to
    } else {
        from
    };
    low == 0 || high * unit() / (low as int) > MAX_CHANGE
}

/// Whether a ramp from `from` to `to` changes a parameter more than
/// tenfold.
fn too_much(from: u128, to: u128) -> (r: bool)
    ensures
        r == changes_too_much(from, to),
{
    let low = if from <= to {
        from
    } else {
        to
    };
    let high = if from <= to {
        to
    } else {
        from
    };
    if low == 0 {
        return true;
    }
    proof {
        assert(high * unit() < limit()) by (nonlinear_arith)
            requires
                high <= u128::MAX,
                unit() == 1_000_000_000_000_000_000,
                limit()
                    == 0x1_0000_0000_0000_0000_0000_0000_0000_0000_0000_0000_0000_0000_0000_0000_0000_0000,
        ;
        vstd::arithmetic::div_mod::lemma_div_nonincreasing((high * unit()) as int, low as int);
        vstd::arithmetic::div_mod::lemma_div_pos_is_pos((high * unit()) as int, low as int);
    }
    match Dec256::raw(high).checked_div(Dec256::raw(low)) {
        Some(ratio) => Dec256::raw(MAX_CHANGE).lt(ratio),
        None => unreached(),
    }
}

/// What stands against starting a ramp at `now` toward `next`, to end at
/// `future_time`: less than a day since the ramp before it started, an end
/// less than a day away, parameters out of bounds, and a change of more than
/// tenfold of the amplification or of gamma, in this order.
pub open spec fn promote_check(ramp: Ramp, now: u64, next: AmpGamma, future_time: u64) -> Result<
    (),
    crate::error::ErrorKind,
> {
    if now < ramp.initial_time + MIN_AMP_CHANGING_TIME || future_time < now
        + MIN_AMP_CHANGING_TIME {
        Err(crate::error::ErrorKind::MinChangingTimeAssertion)
    } else if !(AMP_MIN <= next.amp <= AMP_MAX) {
        Err(crate::error::ErrorKind::IncorrectPoolParam(PoolParam::Amp))
    } else if !(GAMMA_MIN <= next.gamma <= GAMMA_MAX) {
        Err(crate::error::ErrorKind::IncorrectPoolParam(PoolParam::Gamma))
    } else if changes_too_much(ramp.current_value(now).amp, next.amp) {
        Err(crate::error::ErrorKind::MaxChangeAssertion(PoolParam::Amp))
    } else if changes_too_much(ramp.current_value(now).gamma, next.gamma) {
        Err(crate::error::ErrorKind::MaxChangeAssertion(PoolParam::Gamma))
    } else {
        Ok(())
    }
}

impl Ramp {
    /// Starts a ramp at `now` from the parameters then in force toward
    /// `next_amp` and `next_gamma`, to end at `future_time`. A refusal
    /// leaves the ramp as it was.
    pub fn promote_params(&mut self, now: u64, next_amp: u128, next_gamma: u128, future_time: u64) -> (r:
        Result<(), ContractError>)
        ensures
            old(self).wf() ==> final(self).wf(),
            match promote_check(
                *old(self),
                now,
                AmpGamma { amp: next_amp, gamma: next_gamma },
                future_time,
            ) {
                Ok(_) => r is Ok && *final(self) == (Ramp {
                    initial: old(self).current_value(now),
                    future: AmpGamma { amp: next_amp, gamma: next_gamma },
                    initial_time: now,
                    future_time,
                }),
                Err(e) => r matches Err(f) && f@ == e && *final(self) == *old(self),
            },
    {
        let day = MIN_AMP_CHANGING_TIME;
        if now < day || now - day < self.initial_time || future_time < day || future_time - day
            < now {
            return Err(ContractError::MinChangingTimeAssertion);
        }
        let next = match AmpGamma::new(next_amp, next_gamma) {
            Ok(n) => n,
            Err(e) => {
                return Err(e);
            },
        };
        let current = self.current(now);
        proof {
            if self.wf() {
                lemma_ramp_in_bounds(*self, now);
            }
        }
        if too_much(current.amp, next.amp) {
            return Err(ContractError::MaxChangeAssertion(PoolParam::Amp));
        }
        if too_much(current.gamma, next.gamma) {
            return Err(ContractError::MaxChangeAssertion(PoolParam::Gamma));
        }
        self.initial = current;
        self.initial_time = now;
        self.future = next;
        self.future_time = future_time;
        Ok(())
    }
}

/// A value on a ramp lies between the ramp's two ends.
pub proof fn lemma_ramp_between(from: nat, to: nat, start: nat, end: nat, now: nat)
    ensures
        from <= to ==> from <= ramp_value(from, to, start, end, now) <= to,
        to <= from ==> to <= ramp_value(from, to, start, end, now) <= from,
{
    if start < now && now < end {
        let left: int = end - now;
        let passed: int = now - start;
        let total: int = end - start;
        let sum: int = from * left + to * passed;
        let low: int = if from <= to { from as int } else { to as int };
        let high: int = if from <= to { to as int } else { from as int };
        assert(low * total <= sum <= high * total) by (nonlinear_arith)
            requires
                sum == from * left + to * passed,
                total == left + passed,
                low <= from <= high,
                low <= to <= high,
                0 <= left,
                0 <= passed,
        ;
        lemma_div_is_ordered(low * total, sum, total);
        lemma_div_is_ordered(sum, high * total, total);
        lemma_div_by_multiple(low, total);
        lemma_div_by_multiple(high, total);
    }
}

/// A ramp never turns back: from an earlier to a later time a value moves
/// toward the future end, or stays.
pub proof fn lemma_ramp_monotonic(from: nat, to: nat, start: nat, end: nat, t1: nat, t2: nat)
    requires
        start <= end,
        t1 <= t2,
    ensures
        from <= to ==> ramp_value(from, to, start, end, t1) <= ramp_value(from, to, start, end, t2),
        to <= from ==> ramp_value(from, to, start, end, t1) >= ramp_value(from, to, start, end, t2),
{
    lemma_ramp_between(from, to, start, end, t1);
    lemma_ramp_between(from, to, start, end, t2);
    if start < t1 && t2 < end {
        let total: int = end - start;
        let s1: int = from * (end - t1) + to * (t1 - start);
        let s2: int = from * (end - t2) + to * (t2 - start);
        if from <= to {
            assert(s1 <= s2) by (nonlinear_arith)
                requires
                    s1 == from * (end - t1) + to * (t1 - start),
                    s2 == from * (end - t2) + to * (t2 - start),
                    from <= to,
                    t1 <= t2,
            ;
            lemma_div_is_ordered(s1, s2, total);
        }
        if to <= from {
            assert(s2 <= s1) by (nonlinear_arith)
                requires
                    s1 == from * (end - t1) + to * (t1 - start),
                    s2 == from * (end - t2) + to * (t2 - start),
                    to <= from,
                    t1 <= t2,
            ;
            lemma_div_is_ordered(s2, s1, total);
        }
    }
}

/// A ramp is linear between its ends: at its start it gives the initial
/// pair, at its end (where the ramp has a length) the future pair, and
/// between two times in order each parameter moves toward its future value
/// or stays.
pub proof fn lemma_ramp_linear(ramp: Ramp, t1: u64, t2: u64)
    requires
        ramp.initial_time <= ramp.future_time,
        t1 <= t2,
    ensures
        ramp.current_value(ramp.initial_time) == ramp.initial,
        ramp.initial_time < ramp.future_time ==> ramp.current_value(ramp.future_time)
            == ramp.future,
        ramp.initial.amp <= ramp.future.amp ==> ramp.current_value(t1).amp
            <= ramp.current_value(t2).amp,
        ramp.initial.amp >= ramp.future.amp ==> ramp.current_value(t1).amp
            >= ramp.current_value(t2).amp,
        ramp.initial.gamma <= ramp.future.gamma ==> ramp.current_value(t1).gamma
            <= ramp.current_value(t2).gamma,
        ramp.initial.gamma >= ramp.future.gamma ==> ramp.current_value(t1).gamma
            >= ramp.current_value(t2).gamma,
{
    let t0 = ramp.initial_time as nat;
    let te = ramp.future_time as nat;
    lemma_ramp_between(ramp.initial.amp as nat, ramp.future.amp as nat, t0, te, t1 as nat);
    lemma_ramp_between(ramp.initial.amp as nat, ramp.future.amp as nat, t0, te, t2 as nat);
    lemma_ramp_between(ramp.initial.gamma as nat, ramp.future.gamma as nat, t0, te, t1 as nat);
    lemma_ramp_between(ramp.initial.gamma as nat, ramp.future.gamma as nat, t0, te, t2 as nat);
    lemma_ramp_monotonic(
        ramp.initial.amp as nat,
        ramp.future.amp as nat,
        t0,
        te,
        t1 as nat,
        t2 as nat,
    );
    lemma_ramp_monotonic(
        ramp.initial.gamma as nat,
        ramp.future.gamma as nat,
        t0,
        te,
        t1 as nat,
        t2 as nat,
    );
}

/// The parameters of a ramp stay within their bounds at all times, where
/// both of its ends do.
pub proof fn lemma_ramp_in_bounds(ramp: Ramp, now: u64)
    requires
        ramp.initial.in_bounds(),
        ramp.future.in_bounds(),
    ensures
        ramp.current_value(now).in_bounds(),
{
    let t0 = ramp.initial_time as nat;
    let te = ramp.future_time as nat;
    lemma_ramp_between(ramp.initial.amp as nat, ramp.future.amp as nat, t0, te, now as nat);
    lemma_ramp_between(ramp.initial.gamma as nat, ramp.future.gamma as nat, t0, te, now as nat);
}

/// A ramp whose two ends are the same pair stands at that pair at all
/// times.
pub proof fn lemma_level_ramp(ramp: Ramp, now: u64)
    requires
        ramp.initial == ramp.future,
    ensures
        ramp.current_value(now) == ramp.future,
{
    let t0 = ramp.initial_time as nat;
    let te = ramp.future_time as nat;
    lemma_ramp_between(ramp.initial.amp as nat, ramp.future.amp as nat, t0, te, now as nat);
    lemma_ramp_between(ramp.initial.gamma as nat, ramp.future.gamma as nat, t0, te, now as nat);
}

} // verus!
