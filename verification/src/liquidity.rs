//! The liquidity accounting engine: share issuance for deposits and
//! pro-rata redemption for withdrawals.
//!
//! Deposits into a funded pool must preserve the current price ratio
//! exactly: the matching amount of asset B is charged at the ceiling
//! (`ceil(token_a_amount * reserve_b / reserve_a)`) while shares are minted
//! at the floor (`floor(token_a_amount * total_shares / reserve_a)`), so that
//! rounding dust always favours the pool. The first deposit fixes the
//! initial price: it takes exactly `max_token_b` of asset B alongside
//! `token_a_amount` of asset A and mints `token_a_amount` shares (the
//! amount-A bootstrap rule). Withdrawals pay out
//! `floor(shares_amount * reserve / total_shares)` of each asset, again
//! flooring in the pool's favour.

use vstd::arithmetic::div_mod::lemma_div_multiples_vanish;
use vstd::arithmetic::mul::{lemma_mul_inequality, lemma_mul_strict_inequality};
use vstd::prelude::*;

use crate::arith::{
    checked_add, div_ceil, lemma_div_ceil_bounds, lemma_div_le_multiple, lemma_div_lt_multiple,
    lemma_div_mul_bounds, mul_div_ceil, mul_div_floor,
};
use crate::error::AmmError;
use crate::pool::Pool;

verus! {

/// What a deposit returns, case by case: a zero deposit of asset A is
/// rejected; on the first deposit a zero asset-B amount is rejected too
/// (both sides must be funded) and otherwise exactly `(token_a_amount,
/// max_token_b)` enters the pool with `token_a_amount` shares minted; on a
/// funded pool the B charge is the exact price ratio rounded up, the minted
/// shares the share ratio rounded down, and the caller's two slippage bounds
/// are enforced before any overflow-checked reserve update. The `Ok` payload
/// is `(new_pool, shares_minted, token_b_required)`.
pub open spec fn spec_add_liquidity(p: Pool, token_a_amount: u128, min_liquidity: u128, max_token_b: u128) -> Result<(Pool, u128, u128), AmmError> {
    if token_a_amount == 0 {
        Err(AmmError::InvalidRequest)
    } else if p.total_shares == 0 {
        if max_token_b == 0 {
            Err(AmmError::InvalidRequest)
        } else if token_a_amount < min_liquidity {
            Err(AmmError::ExcessiveSlippage)
        } else {
            Ok(
                (
                    Pool {
                        asset_a: p.asset_a,
                        asset_b: p.asset_b,
                        reserve_a: token_a_amount,
                        reserve_b: max_token_b,
                        total_shares: token_a_amount,
                    },
                    token_a_amount,
                    max_token_b,
                ),
            )
        }
    } else {
        if token_a_amount * p.reserve_b > u128::MAX {
            Err(AmmError::ArithmeticOverflow)
        } else {
            let token_b_required = div_ceil(
                token_a_amount * p.reserve_b,
                p.reserve_a as int,
            );
            if token_a_amount * p.total_shares > u128::MAX {
                Err(AmmError::ArithmeticOverflow)
            } else {
                let minted = (token_a_amount * p.total_shares) / (p.reserve_a as int);
                if token_b_required > max_token_b || minted < min_liquidity {
                    Err(AmmError::ExcessiveSlippage)
                } else if p.reserve_a + token_a_amount > u128::MAX {
                    Err(AmmError::ArithmeticOverflow)
                } else if p.reserve_b + token_b_required > u128::MAX {
                    Err(AmmError::ArithmeticOverflow)
                } else if p.total_shares + minted > u128::MAX {
                    Err(AmmError::ArithmeticOverflow)
                } else {
                    Ok(
                        (
                            Pool {
                                asset_a: p.asset_a,
                                asset_b: p.asset_b,
                                reserve_a: (p.reserve_a + token_a_amount) as u128,
                                reserve_b: (p.reserve_b + token_b_required) as u128,
                                total_shares: (p.total_shares + minted) as u128,
                            },
                            minted as u128,
                            token_b_required as u128,
                        ),
                    )
                }
            }
        }
    }
}

/// What a withdrawal returns, case by case: a zero share amount is rejected;
/// more shares than exist or than the caller owns (the caller's balance is a
/// fact read from the external share ledger) is `InsufficientShares`; each
/// pro-rata output is floored and checked against the caller's minimum; on
/// success both reserves and the share total shrink by the computed amounts.
/// The `Ok` payload is `(new_pool, token_a_out, token_b_out)`.
pub open spec fn spec_remove_liquidity(p: Pool, shares_amount: u128, caller_shares: u128, min_token_a: u128, min_token_b: u128) -> Result<(Pool, u128, u128), AmmError> {
    if shares_amount == 0 {
        Err(AmmError::InvalidRequest)
    } else if shares_amount > p.total_shares || shares_amount > caller_shares {
        Err(AmmError::InsufficientShares)
    } else if shares_amount * p.reserve_a > u128::MAX {
        Err(AmmError::ArithmeticOverflow)
    } else {
        let token_a_out = (shares_amount * p.reserve_a) / (p.total_shares as int);
        if shares_amount * p.reserve_b > u128::MAX {
            Err(AmmError::ArithmeticOverflow)
        } else {
            let token_b_out = (shares_amount * p.reserve_b) / (p.total_shares as int);
            if token_a_out < min_token_a || token_b_out < min_token_b {
                Err(AmmError::ExcessiveSlippage)
            } else {
                Ok(
                    (
                        Pool {
                            asset_a: p.asset_a,
                            asset_b: p.asset_b,
                            reserve_a: (p.reserve_a - token_a_out) as u128,
                            reserve_b: (p.reserve_b - token_b_out) as u128,
                            total_shares: (p.total_shares - shares_amount) as u128,
                        },
                        token_a_out as u128,
                        token_b_out as u128,
                    ),
                )
            }
        }
    }
}

/// Bounds on one pro-rata payout `floor(s * r / t)` for `1 <= s <= t`:
/// it never exceeds the reserve, pays the whole reserve exactly when all
/// shares are redeemed, and leaves a positive remainder otherwise.
pub proof fn lemma_pro_rata_bounds(r: int, t: int, s: int)
    requires
        0 <= r,
        1 <= s,
        s <= t,
    ensures
        0 <= (s * r) / t,
        (s * r) / t <= r,
        s == t ==> (s * r) / t == r,
        s < t && r >= 1 ==> (s * r) / t < r,
{
    assert(0 <= s * r) by (nonlinear_arith)
        requires
            0 <= r,
            0 <= s,
    ;
    lemma_div_mul_bounds(s * r, t);
    lemma_mul_inequality(s, t, r);
    assert(t * r == r * t) by (nonlinear_arith);
    lemma_div_le_multiple(s * r, r, t);
    if s == t {
        lemma_div_multiples_vanish(r, t);
        assert(t * r == s * r) by (nonlinear_arith)
            requires
                s == t,
        ;
    }
    if s < t && r >= 1 {
        lemma_mul_strict_inequality(s, t, r);
        lemma_div_lt_multiple(s * r, r, t);
    }
}

/// Deposit `token_a_amount` of asset A (and the matching, exactly-priced
/// amount of asset B) into `pool`, minting liquidity shares. Returns the
/// updated pool, the shares minted, and the asset-B amount the ledger must
/// collect from the caller. The stored state is not touched here.
pub fn add_liquidity(pool: &Pool, token_a_amount: u128, min_liquidity: u128, max_token_b: u128)
    -> (r: Result<(Pool, u128, u128), AmmError>)
    requires
        pool.wf(),
    ensures
        r == spec_add_liquidity(*pool, token_a_amount, min_liquidity, max_token_b),
        r matches Ok(t) ==> {
            &&& t.0.wf()
            &&& t.0.asset_a == pool.asset_a
            &&& t.0.asset_b == pool.asset_b
            &&& t.0.reserve_a == pool.reserve_a + token_a_amount
            &&& t.0.reserve_b == pool.reserve_b + t.2
            &&& t.0.total_shares == pool.total_shares + t.1
            &&& t.1 >= min_liquidity
            &&& t.2 <= max_token_b
        },
{
    if token_a_amount == 0 {
        return Err(AmmError::InvalidRequest);
    }
    if pool.total_shares == 0 {
        if max_token_b == 0 {
            return Err(AmmError::InvalidRequest);
        }
        if token_a_amount < min_liquidity {
            return Err(AmmError::ExcessiveSlippage);
        }
        let funded: Pool = Pool {
            asset_a: pool.asset_a,
            asset_b: pool.asset_b,
            reserve_a: token_a_amount,
            reserve_b: max_token_b,
            total_shares: token_a_amount,
        };
        return Ok((funded, token_a_amount, max_token_b));
    }
    let token_b_required: u128 = match mul_div_ceil(token_a_amount, pool.reserve_b, pool.reserve_a) {
        Ok(v) => v,
        Err(e) => {
            return Err(e);
        },
    };
    let minted: u128 = match mul_div_floor(token_a_amount, pool.total_shares, pool.reserve_a) {
        Ok(v) => v,
        Err(e) => {
            return Err(e);
        },
    };
    proof {
        lemma_div_ceil_bounds(token_a_amount * pool.reserve_b, pool.reserve_a as int);
        lemma_div_mul_bounds(token_a_amount * pool.total_shares, pool.reserve_a as int);
    }
    if token_b_required > max_token_b || minted < min_liquidity {
        return Err(AmmError::ExcessiveSlippage);
    }
    let new_reserve_a: u128 = match checked_add(pool.reserve_a, token_a_amount) {
        Ok(v) => v,
        Err(e) => {
            return Err(e);
        },
    };
    let new_reserve_b: u128 = match checked_add(pool.reserve_b, token_b_required) {
        Ok(v) => v,
        Err(e) => {
            return Err(e);
        },
    };
    let new_total_shares: u128 = match checked_add(pool.total_shares, minted) {
        Ok(v) => v,
        Err(e) => {
            return Err(e);
        },
    };
    let funded: Pool = Pool {
        asset_a: pool.asset_a,
        asset_b: pool.asset_b,
        reserve_a: new_reserve_a,
        reserve_b: new_reserve_b,
        total_shares: new_total_shares,
    };
    Ok((funded, minted, token_b_required))
}

/// Redeem `shares_amount` liquidity shares from `pool` for the pro-rata
/// amounts of both assets. `caller_shares` is the caller's share-token
/// balance as read from the external ledger; redemption beyond it is
/// rejected before any computation. Returns the updated pool and the two
/// payouts. The stored state is not touched here.
pub fn remove_liquidity(
    pool: &Pool,
    shares_amount: u128,
    caller_shares: u128,
    min_token_a: u128,
    min_token_b: u128,
) -> (r: Result<(Pool, u128, u128), AmmError>)
    requires
        pool.wf(),
    ensures
        r == spec_remove_liquidity(*pool, shares_amount, caller_shares, min_token_a, min_token_b),
        r matches Ok(t) ==> {
            &&& t.0.wf()
            &&& t.0.asset_a == pool.asset_a
            &&& t.0.asset_b == pool.asset_b
            &&& t.1 <= pool.reserve_a
            &&& t.2 <= pool.reserve_b
            &&& t.0.reserve_a == pool.reserve_a - t.1
            &&& t.0.reserve_b == pool.reserve_b - t.2
            &&& t.0.total_shares == pool.total_shares - shares_amount
            &&& t.1 >= min_token_a
            &&& t.2 >= min_token_b
        },
{
    if shares_amount == 0 {
        return Err(AmmError::InvalidRequest);
    }
    if shares_amount > pool.total_shares || shares_amount > caller_shares {
        return Err(AmmError::InsufficientShares);
    }
    let token_a_out: u128 = match mul_div_floor(shares_amount, pool.reserve_a, pool.total_shares) {
        Ok(v) => v,
        Err(e) => {
            return Err(e);
        },
    };
    let token_b_out: u128 = match mul_div_floor(shares_amount, pool.reserve_b, pool.total_shares) {
        Ok(v) => v,
        Err(e) => {
            return Err(e);
        },
    };
    proof {
        lemma_pro_rata_bounds(
            pool.reserve_a as int,
            pool.total_shares as int,
            shares_amount as int,
        );
        lemma_pro_rata_bounds(
            pool.reserve_b as int,
            pool.total_shares as int,
            shares_amount as int,
        );
    }
    if token_a_out < min_token_a || token_b_out < min_token_b {
        return Err(AmmError::ExcessiveSlippage);
    }
    let drained: Pool = Pool {
        asset_a: pool.asset_a,
        asset_b: pool.asset_b,
        reserve_a: pool.reserve_a - token_a_out,
        reserve_b: pool.reserve_b - token_b_out,
        total_shares: pool.total_shares - shares_amount,
    };
    Ok((drained, token_a_out, token_b_out))
}

} // verus!
