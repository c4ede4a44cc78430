//! A verified two-asset constant-product automated market maker.
//!
//! The crate holds the deterministic core of a liquidity pool: checked
//! unsigned arithmetic, the pool record with its funding invariant, the
//! liquidity-share accounting engine, the constant-product swap pricing
//! engine, a load/commit state store with an optimistic version check, and
//! the dispatcher that turns a request into a new pool state plus the asset
//! movements an external ledger must execute. A small verified counter
//! contract core lives beside it.
//!
//! All quantities are `u128`; every operation is checked and every failure is
//! an explicit [`error::AmmError`]. The economic laws of the pool — the
//! constant product never decreases across swaps, the pool is empty exactly
//! when no shares are outstanding, and a deposit immediately withdrawn never
//! pays out more than it took in — are stated and proved in [`laws`].

pub mod arith;
pub mod counter;
pub mod dispatch;
pub mod laws;
pub mod error;
pub mod liquidity;
pub mod pool;
pub mod store;
pub mod swap;
