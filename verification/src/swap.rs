//! The swap pricing engine.
//!
//! A swap sells `input_amount` of one pool asset for the other under the
//! constant-product rule. A fixed proportional fee of 0.3% is taken from the
//! input before pricing, in integer arithmetic:
//! `effective_input = floor(input_amount * 997 / 1000)`. The canonical output
//! formula is
//! `output = floor(effective_input * reserve_out / (reserve_in + effective_input))`;
//! this single computation order is fixed so that all rounding dust stays in
//! the pool. The full input (fee included) is added to the input reserve, the
//! output is subtracted from the output reserve, and the product of the
//! reserves never decreases.

use vstd::arithmetic::div_mod::{lemma_fundamental_div_mod, lemma_remainder_lower};
use vstd::prelude::*;

use crate::arith::{checked_add, checked_mul, lemma_div_le_multiple, lemma_div_mul_bounds, mul_div_floor};
use crate::error::AmmError;
use crate::pool::{AssetId, Pool};

verus! {

/// Numerator of the input fraction kept after the fee: 997/1000 = 99.7%.
pub const FEE_NUMERATOR: u128 = 997;

/// Denominator of the fee fraction.
pub const FEE_DENOMINATOR: u128 = 1000;

/// The fee-adjusted input that actually participates in pricing.
pub open spec fn spec_effective_input(input_amount: u128) -> int {
    (input_amount * FEE_NUMERATOR) / (FEE_DENOMINATOR as int)
}

/// The canonical constant-product output for effective input `eff` against
/// reserves `(rin, rout)`.
pub open spec fn spec_swap_output(rin: u128, rout: u128, eff: int) -> int {
    (eff * rout) / (rin + eff)
}

/// The pool after a successful swap of `input_amount` of `input_asset`, with
/// the reserves on the traded pair replaced.
pub open spec fn spec_swapped_pool(p: Pool, input_asset: AssetId, new_in: u128, new_out: u128) -> Pool {
    if input_asset == p.asset_a {
        Pool {
            asset_a: p.asset_a,
            asset_b: p.asset_b,
            reserve_a: new_in,
            reserve_b: new_out,
            total_shares: p.total_shares,
        }
    } else {
        Pool {
            asset_a: p.asset_a,
            asset_b: p.asset_b,
            reserve_a: new_out,
            reserve_b: new_in,
            total_shares: p.total_shares,
        }
    }
}

/// What a swap returns, case by case, in the order the checks are made:
/// a zero amount is rejected outright; an asset that is neither pool side is
/// unknown; an empty pool side cannot price; each checked intermediate may
/// overflow; the caller's slippage bound is enforced against the exact
/// output; and only then are the reserves updated.
pub open spec fn spec_swap(p: Pool, input_asset: AssetId, input_amount: u128, min_output: u128) -> Result<(Pool, u128), AmmError> {
    if input_amount == 0 {
        Err(AmmError::InvalidRequest)
    } else if !p.holds_asset(input_asset) {
        Err(AmmError::UnknownAsset)
    } else {
        let rin: u128 = if input_asset == p.asset_a {
            p.reserve_a
        } else {
            p.reserve_b
        };
        let rout: u128 = if input_asset == p.asset_a {
            p.reserve_b
        } else {
            p.reserve_a
        };
        if rin == 0 || rout == 0 {
            Err(AmmError::InsufficientLiquidity)
        } else if input_amount * FEE_NUMERATOR > u128::MAX {
            Err(AmmError::ArithmeticOverflow)
        } else {
            let eff = spec_effective_input(input_amount);
            if rin + eff > u128::MAX {
                Err(AmmError::ArithmeticOverflow)
            } else if eff * rout > u128::MAX {
                Err(AmmError::ArithmeticOverflow)
            } else {
                let out = spec_swap_output(rin, rout, eff);
                if out < min_output {
                    Err(AmmError::ExcessiveSlippage)
                } else if rin + input_amount > u128::MAX {
                    Err(AmmError::ArithmeticOverflow)
                } else {
                    Ok(
                        (
                            spec_swapped_pool(
                                p,
                                input_asset,
                                (rin + input_amount) as u128,
                                (rout - out) as u128,
                            ),
                            out as u128,
                        ),
                    )
                }
            }
        }
    }
}

/// The arithmetic core of the swap guarantee: against funded reserves the
/// priced output is strictly below the output reserve, and crediting the full
/// input while debiting the output never shrinks the reserve product.
pub proof fn lemma_swap_math(rin: int, rout: int, eff: int, amount: int)
    requires
        1 <= rin,
        1 <= rout,
        0 <= eff,
        eff <= amount,
    ensures
        0 <= (eff * rout) / (rin + eff),
        (eff * rout) / (rin + eff) < rout,
        (rin + amount) * (rout - (eff * rout) / (rin + eff)) >= rin * rout,
{
    let d = rin + eff;
    assert(0 <= eff * rout) by (nonlinear_arith)
        requires
            0 <= eff,
            0 <= rout,
    ;
    lemma_div_mul_bounds(eff * rout, d);
    let out = (eff * rout) / d;
    assert(out < rout) by (nonlinear_arith)
        requires
            out * d <= eff * rout,
            eff < d,
            1 <= rout,
            0 <= out,
            1 <= d,
    ;
    assert((rin + eff) * (rout - out) >= rin * rout) by (nonlinear_arith)
        requires
            out * d <= eff * rout,
            d == rin + eff,
    ;
    assert((rin + amount) * (rout - out) >= (rin + eff) * (rout - out)) by (nonlinear_arith)
        requires
            eff <= amount,
            out <= rout,
    ;
}

/// Why this computation order is the canonical one: the algebraically equal
/// form `reserve_out - floor(reserve_in * reserve_out / (reserve_in + eff))`
/// rounds the other way, and under integer flooring the two can differ by
/// one unit. The form used here never pays out more than the subtraction
/// form would, so the dust sits with the pool, not the caller.
pub proof fn lemma_canonical_output_conservative(rin: int, rout: int, eff: int)
    requires
        1 <= rin,
        0 <= rout,
        0 <= eff,
    ensures
        (eff * rout) / (rin + eff) <= rout - (rin * rout) / (rin + eff),
{
    let d = rin + eff;
    assert(0 <= eff * rout && 0 <= rin * rout) by (nonlinear_arith)
        requires
            0 <= eff,
            0 <= rout,
            0 <= rin,
    ;
    lemma_fundamental_div_mod(eff * rout, d);
    lemma_fundamental_div_mod(rin * rout, d);
    lemma_remainder_lower(eff * rout, d);
    lemma_remainder_lower(rin * rout, d);
    vstd::arithmetic::div_mod::lemma_mod_division_less_than_divisor(eff * rout, d);
    vstd::arithmetic::div_mod::lemma_mod_division_less_than_divisor(rin * rout, d);
    assert((eff * rout) / d + (rin * rout) / d <= rout) by (nonlinear_arith)
        requires
            eff * rout == d * ((eff * rout) / d) + (eff * rout) % d,
            rin * rout == d * ((rin * rout) / d) + (rin * rout) % d,
            0 <= (eff * rout) % d < d,
            0 <= (rin * rout) % d < d,
            d == rin + eff,
            1 <= d,
            0 <= rout,
    ;
}

/// The fee can only shrink the input: `effective_input <= input_amount`.
pub proof fn lemma_effective_input_le(input_amount: u128)
    ensures
        0 <= spec_effective_input(input_amount),
        spec_effective_input(input_amount) <= input_amount,
{
    lemma_div_mul_bounds(input_amount * FEE_NUMERATOR, FEE_DENOMINATOR as int);
    lemma_div_le_multiple(
        input_amount * FEE_NUMERATOR,
        input_amount as int,
        FEE_DENOMINATOR as int,
    );
}

/// Price and apply a swap of `input_amount` of `input_asset` against `pool`,
/// returning the updated pool and the output amount. The stored state is not
/// touched here; committing the returned pool is the dispatcher's job.
pub fn swap(pool: &Pool, input_asset: AssetId, input_amount: u128, min_output: u128) -> (r:
    Result<(Pool, u128), AmmError>)
    requires
        pool.wf(),
    ensures
        r == spec_swap(*pool, input_asset, input_amount, min_output),
        r matches Ok(t) ==> {
            &&& t.0.wf()
            &&& t.0.product() >= pool.product()
            &&& t.0.asset_a == pool.asset_a
            &&& t.0.asset_b == pool.asset_b
            &&& t.0.total_shares == pool.total_shares
        },
{
    if input_amount == 0 {
        return Err(AmmError::InvalidRequest);
    }
    let is_a: bool = input_asset == pool.asset_a;
    let is_b: bool = input_asset == pool.asset_b;
    if !is_a && !is_b {
        return Err(AmmError::UnknownAsset);
    }
    let rin: u128 = if is_a {
        pool.reserve_a
    } else {
        pool.reserve_b
    };
    let rout: u128 = if is_a {
        pool.reserve_b
    } else {
        pool.reserve_a
    };
    if rin == 0 || rout == 0 {
        return Err(AmmError::InsufficientLiquidity);
    }
    let eff: u128 = match mul_div_floor(input_amount, FEE_NUMERATOR, FEE_DENOMINATOR) {
        Ok(v) => v,
        Err(e) => {
            return Err(e);
        },
    };
    let denom: u128 = match checked_add(rin, eff) {
        Ok(v) => v,
        Err(e) => {
            return Err(e);
        },
    };
    let numer: u128 = match checked_mul(eff, rout) {
        Ok(v) => v,
        Err(e) => {
            return Err(e);
        },
    };
    let out: u128 = numer / denom;
    proof {
        lemma_effective_input_le(input_amount);
        lemma_swap_math(rin as int, rout as int, eff as int, input_amount as int);
    }
    if out < min_output {
        return Err(AmmError::ExcessiveSlippage);
    }
    let new_rin: u128 = match checked_add(rin, input_amount) {
        Ok(v) => v,
        Err(e) => {
            return Err(e);
        },
    };
    let new_rout: u128 = rout - out;
    let new_pool: Pool = if is_a {
        Pool {
            asset_a: pool.asset_a,
            asset_b: pool.asset_b,
            reserve_a: new_rin,
            reserve_b: new_rout,
            total_shares: pool.total_shares,
        }
    } else {
        Pool {
            asset_a: pool.asset_a,
            asset_b: pool.asset_b,
            reserve_a: new_rout,
            reserve_b: new_rin,
            total_shares: pool.total_shares,
        }
    };
    proof {
        assert(new_pool.product() >= pool.product()) by (nonlinear_arith)
            requires
                (rin + input_amount) * (rout - out) >= rin * rout,
                new_rin == rin + input_amount,
                new_rout == rout - out,
                (is_a ==> new_pool.reserve_a == new_rin && new_pool.reserve_b == new_rout
                    && pool.reserve_a == rin && pool.reserve_b == rout),
                (!is_a ==> new_pool.reserve_a == new_rout && new_pool.reserve_b == new_rin
                    && pool.reserve_a == rout && pool.reserve_b == rin),
                new_pool.product() == new_pool.reserve_a * new_pool.reserve_b,
                pool.product() == pool.reserve_a * pool.reserve_b,
        ;
    }
    Ok((new_pool, out))
}

} // verus!
