//! The engine of a concentrated-liquidity market maker.
//!
//! A pool holds two assets and prices trades between them along a curve that
//! is flat near the pool's price scale and steep away from it. This crate
//! computes what swaps, deposits and withdrawals give and how they change a
//! pool; it holds no storage and sends no messages. Every function states
//! what it returns and when it refuses, and is proved to do so; none of
//! them stops the program.
//!
//! - [`fixed`] and [`signed`]: fixed-point numbers in 256 bits.
//! - [`ramp`]: the curve parameters and their ramp through time.
//! - [`solver`]: the invariant of a pool and Newton's method for it.
//! - [`math`]: the fee, the value of the invariant in shares, slippage.
//! - [`curve`]: the quote for a swap.
//! - [`oracle`]: the price oracle and the repeg of the price scale.
//! - [`asset`], [`key`], [`state`]: assets, pool keys and what a pool keeps.
//! - [`swap`], [`liquidity`]: a swap against, a deposit into and a
//!   withdrawal from one pool.
//! - [`router`], [`pool`]: the pools, paths through them, making a pool and
//!   what can be asked of one.
//! - [`collector`]: a till of fees.

pub mod asset;
pub mod collector;
pub mod curve;
pub mod error;
pub mod fixed;
pub mod key;
pub mod liquidity;
pub mod math;
pub mod oracle;
pub mod pool;
pub mod ramp;
pub mod router;
pub mod signed;
pub mod solver;
pub mod state;
pub mod swap;
