//! The ways in which an operation on a pool is refused.

use vstd::prelude::*;

verus! {

/// A pool parameter that is held to bounds.
#[derive(Clone, Copy, Debug, PartialEq, Eq, Structural)]
pub enum PoolParam {
    Amp,
    Gamma,
    MidFee,
    OutFee,
    FeeGamma,
    RepegProfitThreshold,
    MinPriceScaleDelta,
    MaHalfTime,
}

/// Why an operation was refused. Every refusal leaves the pool as it was.
#[derive(Debug)]
pub enum ContractError {
    /// The curve solver or the oracle's power series found no result: a
    /// balance was zero, a step could not be computed, or the search did
    /// not settle within its steps.
    ConvergenceFailure,
    /// A trade would lower the real profit of a pool whose ramp is over.
    ProfitDropped,
    /// A fixed-point operation would leave the 256-bit range, divide by zero
    /// or go below zero.
    Overflow,
    /// An amount does not fit the 128-bit integers that tokens are counted in.
    ConversionOverflow,
    /// A parameter lies outside its bounds.
    IncorrectPoolParam(PoolParam),
    /// The outer fee does not exceed the middle fee.
    FeeOrder,
    /// A ramp is started less than a day after the one before it, or to
    /// end in less than a day.
    MinChangingTimeAssertion,
    /// A ramp would change a parameter more than tenfold.
    MaxChangeAssertion(PoolParam),
    /// The sender may not do this.
    Unauthorized,
    /// A pool is made without its parameters.
    InitParamsNotFound,
    /// A pool is made with other than two assets.
    AssetCount,
    /// A pool is made with a price scale of zero.
    ZeroPriceScale,
    /// The first deposit does not exceed the share that stays locked.
    MinimumLiquidityAmountError,
    /// The same asset is named twice.
    DoublingAssets,
    /// The slippage of a swap or a deposit exceeds the caller's bound.
    MaxSpreadAssertion,
    /// The caller's bound on slippage exceeds what a pool allows.
    AllowedSpreadAssertion,
    /// A belief price of zero.
    InvalidBeliefPrice,
    /// The asset is not one of the pool's two.
    InvalidAsset(String),
    /// A native denomination that is not spelled as one.
    InvalidDenom(String),
    /// A leg of a path does not start where the one before it ended.
    InvalidPathOperations { prev_ask_asset: String, next_offer_asset: String, next_ask_asset: String },
    /// A leg of a path swaps an asset for itself.
    DoublingAssetsPath { offer_asset: String, ask_asset: String },
    /// A path without legs.
    MustProvideOperations,
    /// A path with more legs than are allowed.
    SwapLimitExceeded,
    /// An amount that must be positive is zero.
    InvalidZeroAmount,
    /// A deposit names neither one asset nor two; the number is that of
    /// the pool's assets.
    InvalidNumberOfAssets(usize),
    /// A swap against a pool with an empty side.
    EmptyPool,
    /// No pool is kept under the key.
    PoolNotFound,
    /// A pool is made under a key that holds one already.
    PoolExists,
    /// Fewer tokens came with the request than it costs.
    InsufficientTokens { required: u128, sent: u128 },
}

/// An error as contracts speak of it: a string is taken by its characters.
pub enum ErrorKind {
    ConvergenceFailure,
    ProfitDropped,
    Overflow,
    ConversionOverflow,
    IncorrectPoolParam(PoolParam),
    FeeOrder,
    MinChangingTimeAssertion,
    MaxChangeAssertion(PoolParam),
    Unauthorized,
    InitParamsNotFound,
    AssetCount,
    ZeroPriceScale,
    MinimumLiquidityAmountError,
    DoublingAssets,
    MaxSpreadAssertion,
    AllowedSpreadAssertion,
    InvalidBeliefPrice,
    InvalidAsset(Seq<char>),
    InvalidDenom(Seq<char>),
    InvalidPathOperations {
        prev_ask_asset: Seq<char>,
        next_offer_asset: Seq<char>,
        next_ask_asset: Seq<char>,
    },
    DoublingAssetsPath { offer_asset: Seq<char>, ask_asset: Seq<char> },
    MustProvideOperations,
    SwapLimitExceeded,
    InvalidZeroAmount,
    InvalidNumberOfAssets(nat),
    EmptyPool,
    PoolNotFound,
    PoolExists,
    InsufficientTokens { required: nat, sent: nat },
}

impl View for ContractError {
    type V = ErrorKind;

    open spec fn view(&self) -> ErrorKind {
        match self {
            ContractError::ConvergenceFailure => ErrorKind::ConvergenceFailure,
            ContractError::ProfitDropped => ErrorKind::ProfitDropped,
            ContractError::Overflow => ErrorKind::Overflow,
            ContractError::ConversionOverflow => ErrorKind::ConversionOverflow,
            ContractError::IncorrectPoolParam(p) => ErrorKind::IncorrectPoolParam(*p),
            ContractError::FeeOrder => ErrorKind::FeeOrder,
            ContractError::MinChangingTimeAssertion => ErrorKind::MinChangingTimeAssertion,
            ContractError::MaxChangeAssertion(p) => ErrorKind::MaxChangeAssertion(*p),
            ContractError::Unauthorized => ErrorKind::Unauthorized,
            ContractError::InitParamsNotFound => ErrorKind::InitParamsNotFound,
            ContractError::AssetCount => ErrorKind::AssetCount,
            ContractError::ZeroPriceScale => ErrorKind::ZeroPriceScale,
            ContractError::MinimumLiquidityAmountError => ErrorKind::MinimumLiquidityAmountError,
            ContractError::DoublingAssets => ErrorKind::DoublingAssets,
            ContractError::MaxSpreadAssertion => ErrorKind::MaxSpreadAssertion,
            ContractError::AllowedSpreadAssertion => ErrorKind::AllowedSpreadAssertion,
            ContractError::InvalidBeliefPrice => ErrorKind::InvalidBeliefPrice,
            ContractError::InvalidAsset(s) => ErrorKind::InvalidAsset(s@),
            ContractError::InvalidDenom(s) => ErrorKind::InvalidDenom(s@),
            ContractError::InvalidPathOperations {
                prev_ask_asset,
                next_offer_asset,
                next_ask_asset,
            } => ErrorKind::InvalidPathOperations {
                prev_ask_asset: prev_ask_asset@,
                next_offer_asset: next_offer_asset@,
                next_ask_asset: next_ask_asset@,
            },
            ContractError::DoublingAssetsPath { offer_asset, ask_asset } => {
                ErrorKind::DoublingAssetsPath { offer_asset: offer_asset@, ask_asset: ask_asset@ }
            },
            ContractError::MustProvideOperations => ErrorKind::MustProvideOperations,
            ContractError::SwapLimitExceeded => ErrorKind::SwapLimitExceeded,
            ContractError::InvalidZeroAmount => ErrorKind::InvalidZeroAmount,
            ContractError::InvalidNumberOfAssets(n) => ErrorKind::InvalidNumberOfAssets(*n as nat),
            ContractError::EmptyPool => ErrorKind::EmptyPool,
            ContractError::PoolNotFound => ErrorKind::PoolNotFound,
            ContractError::PoolExists => ErrorKind::PoolExists,
            ContractError::InsufficientTokens { required, sent } => ErrorKind::InsufficientTokens {
                required: *required as nat,
                sent: *sent as nat,
            },
        }
    }
}

} // verus!
