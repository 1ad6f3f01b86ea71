//! 256-bit fixed-point numbers with eighteen fractional digits.
//!
//! A [`Dec256`] holds its atomics as thirty-two big-endian bytes, so that it
//! can be handed to `cosmwasm_std::Decimal256` and taken back byte for byte.
//! Its view is the number of atomics: the value `1.0` has the view `10^18`.
//! All arithmetic is checked: an operation that would leave the range
//! answers `None`.
//!
//! The arithmetic itself is that of `cosmwasm_std`. Each of its operations
//! is called in one private function whose contract is taken on trust: the
//! bytes are read by `Uint256::from_be_bytes`, made a decimal by
//! `Decimal256::new`, and the result's atomics are written back by
//! `Uint256::to_be_bytes`. Everything else in this crate is proved from
//! these contracts.

use vstd::prelude::*;
use vstd::arithmetic::power::pow;
use cosmwasm_std::Decimal256;
use cosmwasm_std::Uint128;
use cosmwasm_std::Uint256;

verus! {

/// The number that a big-endian byte string denotes.
pub open spec fn be_value(bytes: Seq<u8>) -> nat
    decreases bytes.len(),
{
    if bytes.len() == 0 {
        0
    } else {
        be_value(bytes.drop_last()) * 256 + bytes.last() as nat
    }
}

/// One more than the largest number of atomics: `2^256`.
pub open spec fn limit() -> nat {
    0x1_0000_0000_0000_0000_0000_0000_0000_0000_0000_0000_0000_0000_0000_0000_0000_0000nat
}

/// The atomics of `1.0`.
pub open spec fn unit() -> nat {
    1_000_000_000_000_000_000
}

/// Whether `r` is the integer square root of `n`.
pub open spec fn is_isqrt(n: nat, r: nat) -> bool {
    r * r <= n < (r + 1) * (r + 1)
}

/// The largest `r` with `r * r <= n`.
pub open spec fn isqrt(n: nat) -> nat {
    choose|r: nat| is_isqrt(n, r)
}

/// How many pairs of digits a square root can keep: the largest `i <= 9`
/// for which `a * 100^i` stays in range.
pub open spec fn sqrt_digits(a: nat) -> nat {
    choose|i: nat| i <= 9 && #[trigger] sqrt_fits(a, i) && (i == 9 || !sqrt_fits(a, i + 1))
}

/// Whether `a * 100^i` stays in range.
pub open spec fn sqrt_fits(a: nat, i: nat) -> bool {
    a * pow(100, i) < limit()
}

/// The atomics of the square root of the decimal with atomics `a`.
pub open spec fn sqrt_value(a: nat) -> nat {
    let i = sqrt_digits(a);
    isqrt((a * pow(100, i)) as nat) * pow(10, (9 - i) as nat) as nat
}

/// Ten to the `e`.
pub open spec fn pow10(e: nat) -> nat {
    pow(10, e) as nat
}

/// The atomics of an integer amount that counts units of `10^-precision`.
pub open spec fn scaled_value(amount: nat, precision: nat) -> nat {
    if precision <= 18 {
        amount * pow10((18 - precision) as nat)
    } else {
        amount / pow10((precision - 18) as nat)
    }
}

/// A non-negative decimal with eighteen fractional digits in 256 bits.
#[derive(Clone, Copy, Debug)]
pub struct Dec256 {
    /// The atomics, most significant byte first.
    pub raw: [u8; 32],
}

impl View for Dec256 {
    type V = nat;

    open spec fn view(&self) -> nat {
        be_value(self.raw@)
    }
}

/// `Decimal256::raw`: the decimal whose atomics are the given integer.
#[verifier::external_body]
fn raw_call(atomics: u128) -> (r: Dec256)
    ensures
        r@ == atomics,
{
    Dec256 { raw: Decimal256::raw(atomics).atomics().to_be_bytes() }
}

/// `Decimal256::from_atomics`: an integer that counts units of
/// `10^-precision`, brought to eighteen digits. Fewer digits multiply by a
/// power of ten, more digits divide and round down; a 128-bit integer cannot
/// leave the range either way.
#[verifier::external_body]
fn from_atomics_call(amount: u128, precision: u8) -> (r: Dec256)
    ensures
        r@ == scaled_value(amount as nat, precision as nat),
{
    let d = Decimal256::from_atomics(amount, u32::from(precision)).unwrap_or_default();
    Dec256 { raw: d.atomics().to_be_bytes() }
}

/// `Uint128::try_from` on the atomics: the same number in 128 bits, where it
/// fits.
#[verifier::external_body]
fn to_u128_call(x: Dec256) -> (r: Option<u128>)
    ensures
        r matches Some(v) ==> v == x@,
        r is None <==> x@ > u128::MAX,
{
    match Uint128::try_from(Uint256::from_be_bytes(x.raw)) {
        Ok(v) => Some(v.u128()),
        Err(_) => None,
    }
}

/// `Decimal256::checked_add`: the sum, unless it leaves the range.
#[verifier::external_body]
fn add_call(a: Dec256, b: Dec256) -> (r: Option<Dec256>)
    ensures
        r matches Some(v) ==> v@ == a@ + b@,
        r is None <==> a@ + b@ >= limit(),
{
    let x = Decimal256::new(Uint256::from_be_bytes(a.raw));
    let y = Decimal256::new(Uint256::from_be_bytes(b.raw));
    match x.checked_add(y) {
        Ok(v) => Some(Dec256 { raw: v.atomics().to_be_bytes() }),
        Err(_) => None,
    }
}

/// `Decimal256::checked_sub`: the difference, unless it would be negative.
#[verifier::external_body]
fn sub_call(a: Dec256, b: Dec256) -> (r: Option<Dec256>)
    ensures
        r matches Some(v) ==> v@ == a@ - b@,
        r is None <==> a@ < b@,
{
    let x = Decimal256::new(Uint256::from_be_bytes(a.raw));
    let y = Decimal256::new(Uint256::from_be_bytes(b.raw));
    match x.checked_sub(y) {
        Ok(v) => Some(Dec256 { raw: v.atomics().to_be_bytes() }),
        Err(_) => None,
    }
}

/// `Decimal256::checked_mul`: the product of the atomics divided by `10^18`
/// and rounded down, unless that leaves the range.
#[verifier::external_body]
fn mul_call(a: Dec256, b: Dec256) -> (r: Option<Dec256>)
    ensures
        r matches Some(v) ==> v@ == a@ * b@ / unit(),
        r is None <==> a@ * b@ / unit() >= limit(),
{
    let x = Decimal256::new(Uint256::from_be_bytes(a.raw));
    let y = Decimal256::new(Uint256::from_be_bytes(b.raw));
    match x.checked_mul(y) {
        Ok(v) => Some(Dec256 { raw: v.atomics().to_be_bytes() }),
        Err(_) => None,
    }
}

/// `Decimal256::checked_div`: the dividend's atomics times `10^18`, divided
/// by the divisor's atomics and rounded down, unless the divisor is zero or
/// the quotient leaves the range.
#[verifier::external_body]
fn div_call(a: Dec256, b: Dec256) -> (r: Option<Dec256>)
    ensures
        r matches Some(v) ==> b@ != 0 && v@ == a@ * unit() / b@,
        r is None <==> (b@ == 0 || a@ * unit() / b@ >= limit()),
{
    let x = Decimal256::new(Uint256::from_be_bytes(a.raw));
    let y = Decimal256::new(Uint256::from_be_bytes(b.raw));
    match x.checked_div(y) {
        Ok(v) => Some(Dec256 { raw: v.atomics().to_be_bytes() }),
        Err(_) => None,
    }
}

/// `<` on `Uint256`: the order of the numbers that the bytes denote.
#[verifier::external_body]
fn lt_call(a: Dec256, b: Dec256) -> (r: bool)
    ensures
        r == (a@ < b@),
{
    Uint256::from_be_bytes(a.raw) < Uint256::from_be_bytes(b.raw)
}

/// `Decimal256::sqrt`: the integer square root of the atomics scaled by the
/// largest even power of ten that keeps them in range, scaled back to
/// eighteen digits.
#[verifier::external_body]
fn sqrt_call(a: Dec256) -> (r: Dec256)
    ensures
        r@ == sqrt_value(a@),
{
    let root = Decimal256::new(Uint256::from_be_bytes(a.raw)).sqrt();
    Dec256 { raw: root.atomics().to_be_bytes() }
}

impl Dec256 {
    /// The decimal with the given atomics.
    pub fn raw(atomics: u128) -> (r: Dec256)
        ensures
            r@ == atomics,
    {
        raw_call(atomics)
    }

    /// `0.0`.
    pub fn zero() -> (r: Dec256)
        ensures
            r@ == 0,
    {
        raw_call(0)
    }

    /// `1.0`.
    pub fn one() -> (r: Dec256)
        ensures
            r@ == unit(),
    {
        raw_call(1_000_000_000_000_000_000)
    }

    /// An integer amount that counts units of `10^-precision`.
    pub fn with_precision(amount: u128, precision: u8) -> (r: Dec256)
        ensures
            r@ == scaled_value(amount as nat, precision as nat),
    {
        from_atomics_call(amount, precision)
    }

    /// The atomics as a 128-bit integer, where they fit.
    pub fn to_u128(self) -> (r: Option<u128>)
        ensures
            r matches Some(v) ==> v == self@,
            r is None <==> self@ > u128::MAX,
    {
        to_u128_call(self)
    }

    /// The sum, unless it leaves the range.
    pub fn checked_add(self, other: Dec256) -> (r: Option<Dec256>)
        ensures
            r matches Some(v) ==> v@ == self@ + other@,
            r is None <==> self@ + other@ >= limit(),
    {
        add_call(self, other)
    }

    /// The difference, unless it would be negative.
    pub fn checked_sub(self, other: Dec256) -> (r: Option<Dec256>)
        ensures
            r matches Some(v) ==> v@ == self@ - other@,
            r is None <==> self@ < other@,
    {
        sub_call(self, other)
    }

    /// The product, rounded down to eighteen digits, unless it leaves the
    /// range.
    pub fn checked_mul(self, other: Dec256) -> (r: Option<Dec256>)
        ensures
            r matches Some(v) ==> v@ == self@ * other@ / unit(),
            r is None <==> self@ * other@ / unit() >= limit(),
    {
        mul_call(self, other)
    }

    /// The quotient, rounded down to eighteen digits, unless the divisor is
    /// zero or the quotient leaves the range.
    pub fn checked_div(self, other: Dec256) -> (r: Option<Dec256>)
        ensures
            r matches Some(v) ==> other@ != 0 && v@ == self@ * unit() / other@,
            r is None <==> (other@ == 0 || self@ * unit() / other@ >= limit()),
    {
        div_call(self, other)
    }

    /// Whether the decimal is less than the other.
    pub fn lt(self, other: Dec256) -> (r: bool)
        ensures
            r == (self@ < other@),
    {
        lt_call(self, other)
    }

    /// Whether the decimal is no more than the other.
    pub fn le(self, other: Dec256) -> (r: bool)
        ensures
            r == (self@ <= other@),
    {
        !lt_call(other, self)
    }

    /// Whether the two decimals are the same number.
    pub fn same(self, other: Dec256) -> (r: bool)
        ensures
            r == (self@ == other@),
    {
        !lt_call(self, other) && !lt_call(other, self)
    }

    /// Whether the decimal is zero.
    pub fn is_zero(self) -> (r: bool)
        ensures
            r == (self@ == 0),
    {
        !lt_call(raw_call(0), self)
    }

    /// The difference, or zero where it would be negative.
    pub fn saturating_sub(self, other: Dec256) -> (r: Dec256)
        ensures
            r@ == if self@ >= other@ { self@ - other@ } else { 0 },
    {
        match sub_call(self, other) {
            Some(v) => v,
            None => raw_call(0),
        }
    }

    /// The distance between two decimals.
    pub fn diff(self, other: Dec256) -> (r: Dec256)
        ensures
            r@ == if self@ >= other@ { self@ - other@ } else { other@ - self@ },
    {
        match sub_call(self, other) {
            Some(v) => v,
            None => match sub_call(other, self) {
                Some(v) => v,
                None => raw_call(0),
            },
        }
    }

    /// The square root.
    pub fn sqrt(self) -> (r: Dec256)
        ensures
            r@ == sqrt_value(self@),
    {
        sqrt_call(self)
    }
}

/// The sum of two numbers of atomics, where both are there and it stays in
/// range.
pub open spec fn plus_v(a: Option<nat>, b: Option<nat>) -> Option<nat> {
    match (a, b) {
        (Some(x), Some(y)) => if x + y < limit() {
            Some(x + y)
        } else {
            None
        },
        _ => None,
    }
}

/// The difference of two numbers of atomics, where both are there and it is
/// not negative.
pub open spec fn minus_v(a: Option<nat>, b: Option<nat>) -> Option<nat> {
    match (a, b) {
        (Some(x), Some(y)) => if x >= y {
            Some((x - y) as nat)
        } else {
            None
        },
        _ => None,
    }
}

/// The product of two decimals in atomics, rounded down, where both are
/// there and it stays in range.
pub open spec fn times_v(a: Option<nat>, b: Option<nat>) -> Option<nat> {
    match (a, b) {
        (Some(x), Some(y)) => if x * y / unit() < limit() {
            Some(x * y / unit())
        } else {
            None
        },
        _ => None,
    }
}

/// The quotient of two decimals in atomics, rounded down, where both are
/// there, the divisor is not zero and the quotient stays in range.
pub open spec fn over_v(a: Option<nat>, b: Option<nat>) -> Option<nat> {
    match (a, b) {
        (Some(x), Some(y)) => if y != 0 && x * unit() / y < limit() {
            Some(x * unit() / y)
        } else {
            None
        },
        _ => None,
    }
}

/// The difference of two numbers of atomics, or zero where it would be
/// negative.
pub open spec fn less_v(a: Option<nat>, b: Option<nat>) -> Option<nat> {
    match (a, b) {
        (Some(x), Some(y)) => if x >= y {
            Some((x - y) as nat)
        } else {
            Some(0)
        },
        _ => None,
    }
}

/// The distance between two numbers of atomics.
pub open spec fn apart_v(a: Option<nat>, b: Option<nat>) -> Option<nat> {
    match (a, b) {
        (Some(x), Some(y)) => if x >= y {
            Some((x - y) as nat)
        } else {
            Some((y - x) as nat)
        },
        _ => None,
    }
}

/// The square root of a decimal in atomics, where it is there.
pub open spec fn root_v(a: Option<nat>) -> Option<nat> {
    match a {
        Some(x) => Some(sqrt_value(x)),
        None => None,
    }
}

/// The atomics of a decimal that may be missing.
pub open spec fn val(x: Option<Dec256>) -> Option<nat> {
    match x {
        Some(v) => Some(v@),
        None => None,
    }
}

/// The sum, where both operands are there and it stays in range.
pub fn plus(a: Option<Dec256>, b: Option<Dec256>) -> (r: Option<Dec256>)
    ensures
        val(r) == plus_v(val(a), val(b)),
{
    match (a, b) {
        (Some(x), Some(y)) => x.checked_add(y),
        _ => None,
    }
}

/// The difference, where both operands are there and it is not negative.
pub fn minus(a: Option<Dec256>, b: Option<Dec256>) -> (r: Option<Dec256>)
    ensures
        val(r) == minus_v(val(a), val(b)),
{
    match (a, b) {
        (Some(x), Some(y)) => x.checked_sub(y),
        _ => None,
    }
}

/// The product, where both operands are there and it stays in range.
pub fn times(a: Option<Dec256>, b: Option<Dec256>) -> (r: Option<Dec256>)
    ensures
        val(r) == times_v(val(a), val(b)),
{
    match (a, b) {
        (Some(x), Some(y)) => x.checked_mul(y),
        _ => None,
    }
}

/// The quotient, where both operands are there, the divisor is not zero and
/// the quotient stays in range.
pub fn over(a: Option<Dec256>, b: Option<Dec256>) -> (r: Option<Dec256>)
    ensures
        val(r) == over_v(val(a), val(b)),
{
    match (a, b) {
        (Some(x), Some(y)) => x.checked_div(y),
        _ => None,
    }
}

/// The difference or zero, where both operands are there.
pub fn less(a: Option<Dec256>, b: Option<Dec256>) -> (r: Option<Dec256>)
    ensures
        val(r) == less_v(val(a), val(b)),
{
    match (a, b) {
        (Some(x), Some(y)) => Some(x.saturating_sub(y)),
        _ => None,
    }
}

/// The distance, where both operands are there.
pub fn apart(a: Option<Dec256>, b: Option<Dec256>) -> (r: Option<Dec256>)
    ensures
        val(r) == apart_v(val(a), val(b)),
{
    match (a, b) {
        (Some(x), Some(y)) => Some(x.diff(y)),
        _ => None,
    }
}

/// The square root, where the operand is there.
pub fn root(a: Option<Dec256>) -> (r: Option<Dec256>)
    ensures
        val(r) == root_v(val(a)),
{
    match a {
        Some(x) => Some(x.sqrt()),
        None => None,
    }
}

} // verus!
