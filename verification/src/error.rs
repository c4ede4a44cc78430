//! The error taxonomy of the pool.
//!
//! Every failure is reported through one of these variants, so that a caller
//! can tell an arithmetic failure (resubmitting the same request is pointless)
//! from a business-rule failure (resubmitting with different parameters may
//! succeed).

use vstd::prelude::*;

verus! {

/// Why a request was rejected. No variant is ever silently swallowed: every
/// transition either commits a new pool state or returns one of these with the
/// stored state untouched.
#[derive(Clone, Copy, Debug, PartialEq, Eq, Structural)]
pub enum AmmError {
    /// The request was malformed: a zero amount where a positive one is
    /// required, or identical asset identifiers at instantiation.
    InvalidRequest,
    /// A checked addition or multiplication exceeded the representable range.
    ArithmeticOverflow,
    /// A checked subtraction had a minuend smaller than the subtrahend.
    ArithmeticUnderflow,
    /// A checked division had a zero divisor.
    DivisionByZero,
    /// A caller-specified slippage bound was violated.
    ExcessiveSlippage,
    /// A swap was attempted against an empty pool side.
    InsufficientLiquidity,
    /// A redemption asked for more shares than exist or than the caller owns.
    InsufficientShares,
    /// A commit raced with another committed transition (version mismatch).
    ConcurrentModification,
    /// A swap named an asset that is neither side of the pool.
    UnknownAsset,
}

} // verus!
