//! The economic laws of the pool, stated and proved once over the spec-level
//! transition functions: the constant product never decreases across any
//! sequence of swaps, every transition preserves the funding invariant, a
//! deposit immediately withdrawn never pays out more than it took in, an
//! exact slippage bound always trips, and the boundary rejections hold on
//! every pool.

use vstd::prelude::*;

use crate::arith::{
    lemma_div_ceil_bounds, lemma_div_le_multiple, lemma_div_mul_bounds,
};
use crate::dispatch::{spec_execute, ExecuteMsg};
use crate::error::AmmError;
use crate::liquidity::{lemma_pro_rata_bounds, spec_add_liquidity, spec_remove_liquidity};
use crate::pool::{AssetId, Pool};
use crate::swap::{lemma_effective_input_le, lemma_swap_math, spec_effective_input, spec_swap};

verus! {

/// A transient, validated swap request: which asset goes in, how much, and
/// the caller's slippage floor on what comes out.
#[derive(Clone, Copy, Debug)]
pub struct SwapRequest {
    pub input_asset: AssetId,
    pub input_amount: u128,
    pub min_output: u128,
}

/// The pool after one swap request: the repriced pool if the swap succeeds,
/// the same pool if it fails (a failed call commits nothing).
pub open spec fn swap_outcome(p: Pool, r: SwapRequest) -> Pool {
    match spec_swap(p, r.input_asset, r.input_amount, r.min_output) {
        Ok(t) => t.0,
        Err(_) => p,
    }
}

/// The pool after a sequence of swap requests, applied in order.
pub open spec fn run_swaps(p: Pool, reqs: Seq<SwapRequest>) -> Pool
    decreases reqs.len(),
{
    if reqs.len() == 0 {
        p
    } else {
        run_swaps(swap_outcome(p, reqs[0]), reqs.drop_first())
    }
}

/// One swap request, successful or failed, never decreases the reserve
/// product `reserve_a * reserve_b`.
pub proof fn lemma_swap_step_product(p: Pool, r: SwapRequest)
    ensures
        swap_outcome(p, r).product() >= p.product(),
{
    let res = spec_swap(p, r.input_asset, r.input_amount, r.min_output);
    if res is Ok {
        let is_a = r.input_asset == p.asset_a;
        let rin: u128 = if is_a {
            p.reserve_a
        } else {
            p.reserve_b
        };
        let rout: u128 = if is_a {
            p.reserve_b
        } else {
            p.reserve_a
        };
        lemma_effective_input_le(r.input_amount);
        lemma_swap_math(rin as int, rout as int, spec_effective_input(r.input_amount), r.input_amount as int);
        let q = swap_outcome(p, r);
        assert(q.product() >= p.product()) by (nonlinear_arith)
            requires
                (is_a ==> q.reserve_a * q.reserve_b >= rin * rout && p.reserve_a == rin
                    && p.reserve_b == rout),
                (!is_a ==> q.reserve_b * q.reserve_a >= rin * rout && p.reserve_b == rin
                    && p.reserve_a == rout),
                q.product() == q.reserve_a * q.reserve_b,
                p.product() == p.reserve_a * p.reserve_b,
        ;
    }
}

/// For all sequences of swaps (the fee being the fixed positive 0.3%), the
/// product `reserve_a * reserve_b` is non-decreasing.
pub proof fn lemma_product_non_decreasing(p: Pool, reqs: Seq<SwapRequest>)
    ensures
        run_swaps(p, reqs).product() >= p.product(),
    decreases reqs.len(),
{
    if reqs.len() == 0 {
    } else {
        lemma_swap_step_product(p, reqs[0]);
        lemma_product_non_decreasing(swap_outcome(p, reqs[0]), reqs.drop_first());
    }
}

/// The pool after one dispatched request: the committed pool on success,
/// the same pool on failure.
pub open spec fn execute_outcome(p: Pool, caller_shares: u128, msg: ExecuteMsg) -> Pool {
    match spec_execute(p, caller_shares, msg) {
        Ok(t) => t.0,
        Err(_) => p,
    }
}

/// Every transition preserves the funding invariant: `total_shares == 0`
/// exactly when `reserve_a == 0` and `reserve_b == 0`. Together with
/// instantiation establishing it, the invariant holds always.
pub proof fn lemma_transition_preserves_wf(p: Pool, caller_shares: u128, msg: ExecuteMsg)
    requires
        p.wf(),
    ensures
        execute_outcome(p, caller_shares, msg).wf(),
{
    match msg {
        ExecuteMsg::AddLiquidity { token_a_amount, min_liquidity, max_token_b } => {
            if spec_add_liquidity(p, token_a_amount, min_liquidity, max_token_b) is Ok
                && p.total_shares != 0 {
                let a = token_a_amount as int;
                assert(0 <= a * p.reserve_b && 0 <= a * p.total_shares) by (nonlinear_arith)
                    requires
                        0 <= a,
                        0 <= p.reserve_b,
                        0 <= p.total_shares,
                ;
                lemma_div_ceil_bounds(a * p.reserve_b, p.reserve_a as int);
                lemma_div_mul_bounds(a * p.total_shares, p.reserve_a as int);
            }
        },
        ExecuteMsg::RemoveLiquidity { amount, min_token_a, min_token_b } => {
            if spec_remove_liquidity(p, amount, caller_shares, min_token_a, min_token_b) is Ok {
                lemma_pro_rata_bounds(
                    p.reserve_a as int,
                    p.total_shares as int,
                    amount as int,
                );
                lemma_pro_rata_bounds(
                    p.reserve_b as int,
                    p.total_shares as int,
                    amount as int,
                );
            }
        },
        ExecuteMsg::Swap { input_token, input_amount, min_output } => {
            if spec_swap(p, input_token, input_amount, min_output) is Ok {
                let rin: u128 = if input_token == p.asset_a {
                    p.reserve_a
                } else {
                    p.reserve_b
                };
                let rout: u128 = if input_token == p.asset_a {
                    p.reserve_b
                } else {
                    p.reserve_a
                };
                lemma_effective_input_le(input_amount);
                lemma_swap_math(
                    rin as int,
                    rout as int,
                    spec_effective_input(input_amount),
                    input_amount as int,
                );
            }
        },
    }
}

/// A deposit immediately withdrawn (the same shares, no slippage floors)
/// succeeds and pays out at most what was deposited: at most
/// `token_a_amount` of asset A and at most the charged `b_required` of
/// asset B. The two product bounds exclude redemptions whose intermediate
/// product would exceed the arithmetic range, and a deposit that minted no
/// shares has nothing to withdraw.
pub proof fn lemma_deposit_withdraw_round_trip(
    p: Pool,
    token_a_amount: u128,
    min_liquidity: u128,
    max_token_b: u128,
    p1: Pool,
    minted: u128,
    b_required: u128,
)
    requires
        p.wf(),
        spec_add_liquidity(p, token_a_amount, min_liquidity, max_token_b) == Ok::<
            (Pool, u128, u128),
            AmmError,
        >((p1, minted, b_required)),
        1 <= minted,
        minted * p1.reserve_a <= u128::MAX,
        minted * p1.reserve_b <= u128::MAX,
    ensures
        spec_remove_liquidity(p1, minted, minted, 0, 0) matches Ok(t) && t.1 <= token_a_amount
            && t.2 <= b_required,
{
    let a = token_a_amount as int;
    let ra = p.reserve_a as int;
    let rb = p.reserve_b as int;
    let ts = p.total_shares as int;
    let m = minted as int;
    let bq = b_required as int;
    if p.total_shares == 0 {
        // Bootstrap: p1 = (a, max_token_b, a) and all of the minted shares
        // are redeemed, so each payout is the whole reserve.
        lemma_pro_rata_bounds(p1.reserve_a as int, p1.total_shares as int, m);
        lemma_pro_rata_bounds(p1.reserve_b as int, p1.total_shares as int, m);
    } else {
        // Funded: m == floor(a * ts / ra) and bq == ceil(a * rb / ra).
        assert(0 <= a * rb && 0 <= a * ts) by (nonlinear_arith)
            requires
                0 <= a,
                0 <= rb,
                0 <= ts,
        ;
        lemma_div_mul_bounds(a * ts, ra);
        lemma_div_ceil_bounds(a * rb, ra);
        assert(m * ra <= a * ts);
        assert(a * rb <= bq * ra);
        lemma_pro_rata_bounds(p1.reserve_a as int, p1.total_shares as int, m);
        lemma_pro_rata_bounds(p1.reserve_b as int, p1.total_shares as int, m);
        // Asset A: m * (ra + a) <= a * (ts + m), so the floored payout is at
        // most a.
        assert(m * (ra + a) <= a * (ts + m)) by (nonlinear_arith)
            requires
                m * ra <= a * ts,
                0 <= m,
                0 <= a,
        ;
        assert(0 <= m * (ra + a)) by (nonlinear_arith)
            requires
                0 <= m,
                0 <= ra + a,
        ;
        lemma_div_le_multiple(m * (ra + a), a, ts + m);
        // Asset B: multiply the two engine inequalities and cancel ra >= 1
        // to get m * rb <= bq * ts, hence m * (rb + bq) <= bq * (ts + m).
        assert((m * rb) * ra <= (bq * ts) * ra) by (nonlinear_arith)
            requires
                m * ra <= a * ts,
                a * rb <= bq * ra,
                0 <= rb,
                0 <= ts,
                0 <= m,
                0 <= a,
                0 <= bq,
                0 <= ra,
        ;
        assert(m * rb <= bq * ts) by (nonlinear_arith)
            requires
                (m * rb) * ra <= (bq * ts) * ra,
                1 <= ra,
        ;
        assert(m * (rb + bq) <= bq * (ts + m)) by (nonlinear_arith)
            requires
                m * rb <= bq * ts,
                0 <= m,
                0 <= bq,
        ;
        assert(0 <= m * (rb + bq)) by (nonlinear_arith)
            requires
                0 <= m,
                0 <= rb + bq,
        ;
        lemma_div_le_multiple(m * (rb + bq), bq, ts + m);
    }
}

/// Setting `min_output` one unit above the exact computed output always
/// fails with `ExcessiveSlippage` (and a failed call leaves the stored
/// reserves untouched, by the dispatcher's contract).
pub proof fn lemma_swap_slippage_exact(
    p: Pool,
    input_asset: AssetId,
    input_amount: u128,
    min_output: u128,
    q: Pool,
    out: u128,
)
    requires
        spec_swap(p, input_asset, input_amount, min_output) == Ok::<(Pool, u128), AmmError>(
            (q, out),
        ),
    ensures
        out < u128::MAX,
        spec_swap(p, input_asset, input_amount, (out + 1) as u128) == Err::<
            (Pool, u128),
            AmmError,
        >(AmmError::ExcessiveSlippage),
{
    let is_a = input_asset == p.asset_a;
    let rin: u128 = if is_a {
        p.reserve_a
    } else {
        p.reserve_b
    };
    let rout: u128 = if is_a {
        p.reserve_b
    } else {
        p.reserve_a
    };
    lemma_effective_input_le(input_amount);
    lemma_swap_math(
        rin as int,
        rout as int,
        spec_effective_input(input_amount),
        input_amount as int,
    );
}

/// A swap against a pool with an empty side fails with
/// `InsufficientLiquidity`, whichever side is empty and whichever direction
/// is traded.
pub proof fn lemma_swap_unfunded(p: Pool, input_asset: AssetId, input_amount: u128, min_output: u128)
    requires
        1 <= input_amount,
        p.holds_asset(input_asset),
        p.reserve_a == 0 || p.reserve_b == 0,
    ensures
        spec_swap(p, input_asset, input_amount, min_output) == Err::<(Pool, u128), AmmError>(
            AmmError::InsufficientLiquidity,
        ),
{
}

/// A deposit of zero asset A is rejected as malformed before any state is
/// read.
pub proof fn lemma_add_zero_invalid(p: Pool, min_liquidity: u128, max_token_b: u128)
    ensures
        spec_add_liquidity(p, 0, min_liquidity, max_token_b) == Err::<
            (Pool, u128, u128),
            AmmError,
        >(AmmError::InvalidRequest),
{
}

} // verus!
