//! End-to-end exercises of the dispatcher: instantiation, deposits,
//! withdrawals, swaps, slippage bounds, and every error variant the pool can
//! return.

use amm_core::dispatch::{
    execute, instantiate, query, ExecReply, ExecuteMsg, InstantiateMsg, Movement, Party, QueryMsg,
    QueryReply,
};
use amm_core::error::AmmError;
use amm_core::pool::AssetId;
use amm_core::store::PoolStore;

fn asset(id: u64) -> AssetId {
    AssetId { id }
}

fn fresh_store() -> PoolStore {
    instantiate(InstantiateMsg { token_a: asset(1), token_b: asset(2) }).unwrap()
}

fn funded_store() -> PoolStore {
    let mut store = fresh_store();
    let r = execute(
        &mut store,
        0,
        ExecuteMsg::AddLiquidity { token_a_amount: 1000, min_liquidity: 0, max_token_b: 2000 },
    );
    assert!(r.is_ok());
    store
}

fn reserves(store: &PoolStore) -> (u128, u128) {
    match query(store, 0, QueryMsg::GetReserves {}) {
        QueryReply::Reserves { reserve_a, reserve_b } => (reserve_a, reserve_b),
        other => panic!("unexpected reply {:?}", other),
    }
}

#[test]
fn instantiate_rejects_identical_assets() {
    let r = instantiate(InstantiateMsg { token_a: asset(7), token_b: asset(7) });
    assert_eq!(r.unwrap_err(), AmmError::InvalidRequest);
}

#[test]
fn bootstrap_fixes_initial_price() {
    let mut store = fresh_store();
    let r = execute(
        &mut store,
        0,
        ExecuteMsg::AddLiquidity { token_a_amount: 1000, min_liquidity: 0, max_token_b: 2000 },
    )
    .unwrap();
    assert_eq!(r.reply, ExecReply::AddLiquidity { shares_minted: 1000, token_b_required: 2000 });
    assert_eq!(
        r.movements,
        vec![
            Movement::Transfer {
                from: Party::Caller,
                to: Party::Pool,
                asset_id: asset(1),
                amount: 1000,
            },
            Movement::Transfer {
                from: Party::Caller,
                to: Party::Pool,
                asset_id: asset(2),
                amount: 2000,
            },
            Movement::MintShares { to: Party::Caller, amount: 1000 },
        ]
    );
    assert_eq!(reserves(&store), (1000, 2000));
}

#[test]
fn swap_scenario_exact_values() {
    // 0.3% fee: effective input = floor(100 * 997 / 1000) = 99,
    // output = floor(99 * 2000 / (1000 + 99)) = 180.
    let mut store = funded_store();
    let r = execute(
        &mut store,
        0,
        ExecuteMsg::Swap { input_token: asset(1), input_amount: 100, min_output: 0 },
    )
    .unwrap();
    assert_eq!(r.reply, ExecReply::Swap { output_amount: 180 });
    assert_eq!(
        r.movements,
        vec![
            Movement::Transfer {
                from: Party::Caller,
                to: Party::Pool,
                asset_id: asset(1),
                amount: 100,
            },
            Movement::Transfer {
                from: Party::Pool,
                to: Party::Caller,
                asset_id: asset(2),
                amount: 180,
            },
        ]
    );
    // The full input, fee included, stays in the pool.
    assert_eq!(reserves(&store), (1100, 1820));
}

#[test]
fn swap_other_direction_exact_values() {
    // Selling B for A: effective input 99, output = floor(99 * 1000 / 2099) = 47.
    let mut store = funded_store();
    let r = execute(
        &mut store,
        0,
        ExecuteMsg::Swap { input_token: asset(2), input_amount: 100, min_output: 0 },
    )
    .unwrap();
    assert_eq!(r.reply, ExecReply::Swap { output_amount: 47 });
    assert_eq!(reserves(&store), (953, 2100));
}

#[test]
fn swap_min_output_one_above_exact_fails() {
    let mut store = funded_store();
    let r = execute(
        &mut store,
        0,
        ExecuteMsg::Swap { input_token: asset(1), input_amount: 100, min_output: 181 },
    );
    assert_eq!(r.unwrap_err(), AmmError::ExcessiveSlippage);
    // A failed call leaves the reserves exactly as they were.
    assert_eq!(reserves(&store), (1000, 2000));
}

#[test]
fn swap_min_output_at_exact_succeeds() {
    let mut store = funded_store();
    let r = execute(
        &mut store,
        0,
        ExecuteMsg::Swap { input_token: asset(1), input_amount: 100, min_output: 180 },
    )
    .unwrap();
    assert_eq!(r.reply, ExecReply::Swap { output_amount: 180 });
}

#[test]
fn swap_empty_pool_fails_insufficient_liquidity() {
    let mut store = fresh_store();
    let r = execute(
        &mut store,
        0,
        ExecuteMsg::Swap { input_token: asset(1), input_amount: 100, min_output: 0 },
    );
    assert_eq!(r.unwrap_err(), AmmError::InsufficientLiquidity);
}

#[test]
fn swap_unknown_asset_fails() {
    let mut store = funded_store();
    let r = execute(
        &mut store,
        0,
        ExecuteMsg::Swap { input_token: asset(9), input_amount: 100, min_output: 0 },
    );
    assert_eq!(r.unwrap_err(), AmmError::UnknownAsset);
}

#[test]
fn swap_zero_amount_fails_invalid_request() {
    let mut store = funded_store();
    let r = execute(
        &mut store,
        0,
        ExecuteMsg::Swap { input_token: asset(1), input_amount: 0, min_output: 0 },
    );
    assert_eq!(r.unwrap_err(), AmmError::InvalidRequest);
}

#[test]
fn swap_product_never_decreases() {
    let mut store = funded_store();
    let (ra0, rb0) = reserves(&store);
    let mut k = ra0 * rb0;
    for (token, amount) in [(1u64, 100u128), (2, 500), (1, 1), (2, 1), (1, 999)] {
        let r = execute(
            &mut store,
            0,
            ExecuteMsg::Swap { input_token: asset(token), input_amount: amount, min_output: 0 },
        );
        assert!(r.is_ok());
        let (ra, rb) = reserves(&store);
        let k_next = ra * rb;
        assert!(k_next >= k, "product decreased: {} -> {}", k, k_next);
        k = k_next;
    }
}

#[test]
fn add_liquidity_zero_amount_fails_invalid_request() {
    let mut store = funded_store();
    let r = execute(
        &mut store,
        0,
        ExecuteMsg::AddLiquidity { token_a_amount: 0, min_liquidity: 0, max_token_b: 10 },
    );
    assert_eq!(r.unwrap_err(), AmmError::InvalidRequest);
    assert_eq!(reserves(&store), (1000, 2000));
}

#[test]
fn bootstrap_zero_token_b_fails_invalid_request() {
    let mut store = fresh_store();
    let r = execute(
        &mut store,
        0,
        ExecuteMsg::AddLiquidity { token_a_amount: 1000, min_liquidity: 0, max_token_b: 0 },
    );
    assert_eq!(r.unwrap_err(), AmmError::InvalidRequest);
}

#[test]
fn add_liquidity_funded_charges_ceiling_and_mints_floor() {
    // Pool (1000, 2000), 1000 shares. Deposit 333 of A:
    // token_b_required = ceil(333 * 2000 / 1000) = 666,
    // minted = floor(333 * 1000 / 1000) = 333.
    let mut store = funded_store();
    let r = execute(
        &mut store,
        0,
        ExecuteMsg::AddLiquidity { token_a_amount: 333, min_liquidity: 0, max_token_b: 1000 },
    )
    .unwrap();
    assert_eq!(r.reply, ExecReply::AddLiquidity { shares_minted: 333, token_b_required: 666 });
    assert_eq!(reserves(&store), (1333, 2666));
}

#[test]
fn add_liquidity_rounds_token_b_up() {
    // Pool (1000, 2000). Deposit 1 of A: ceil(1 * 2000 / 1000) = 2 of B,
    // minted = floor(1 * 1000 / 1000) = 1 share.
    let mut store = funded_store();
    let r = execute(
        &mut store,
        0,
        ExecuteMsg::AddLiquidity { token_a_amount: 1, min_liquidity: 0, max_token_b: 2 },
    )
    .unwrap();
    assert_eq!(r.reply, ExecReply::AddLiquidity { shares_minted: 1, token_b_required: 2 });
}

#[test]
fn add_liquidity_max_token_b_exceeded_fails() {
    let mut store = funded_store();
    let r = execute(
        &mut store,
        0,
        ExecuteMsg::AddLiquidity { token_a_amount: 333, min_liquidity: 0, max_token_b: 665 },
    );
    assert_eq!(r.unwrap_err(), AmmError::ExcessiveSlippage);
    assert_eq!(reserves(&store), (1000, 2000));
}

#[test]
fn add_liquidity_min_liquidity_unmet_fails() {
    let mut store = funded_store();
    let r = execute(
        &mut store,
        0,
        ExecuteMsg::AddLiquidity { token_a_amount: 333, min_liquidity: 334, max_token_b: 1000 },
    );
    assert_eq!(r.unwrap_err(), AmmError::ExcessiveSlippage);
}

#[test]
fn remove_liquidity_round_trip_returns_deposits() {
    // Deposit then withdraw the same shares with no interleaving call:
    // the payouts equal the deposits and the pool drains completely.
    let mut store = funded_store();
    let r = execute(
        &mut store,
        1000,
        ExecuteMsg::RemoveLiquidity { amount: 1000, min_token_a: 0, min_token_b: 0 },
    )
    .unwrap();
    assert_eq!(r.reply, ExecReply::RemoveLiquidity { token_a_out: 1000, token_b_out: 2000 });
    assert_eq!(
        r.movements,
        vec![
            Movement::BurnShares { from: Party::Caller, amount: 1000 },
            Movement::Transfer {
                from: Party::Pool,
                to: Party::Caller,
                asset_id: asset(1),
                amount: 1000,
            },
            Movement::Transfer {
                from: Party::Pool,
                to: Party::Caller,
                asset_id: asset(2),
                amount: 2000,
            },
        ]
    );
    assert_eq!(reserves(&store), (0, 0));
    let (pool, _) = store.load();
    assert_eq!(pool.total_shares, 0);
}

#[test]
fn pool_empty_exactly_when_no_shares() {
    // The funding invariant holds at every observable state: shares are zero
    // exactly when both reserves are.
    let mut store = fresh_store();
    let check = |store: &PoolStore| {
        let (pool, _) = store.load();
        assert_eq!(pool.total_shares == 0, pool.reserve_a == 0);
        assert_eq!(pool.total_shares == 0, pool.reserve_b == 0);
    };
    check(&store);
    execute(
        &mut store,
        0,
        ExecuteMsg::AddLiquidity { token_a_amount: 1000, min_liquidity: 0, max_token_b: 2000 },
    )
    .unwrap();
    check(&store);
    execute(
        &mut store,
        0,
        ExecuteMsg::Swap { input_token: asset(1), input_amount: 100, min_output: 0 },
    )
    .unwrap();
    check(&store);
    execute(
        &mut store,
        1000,
        ExecuteMsg::RemoveLiquidity { amount: 999, min_token_a: 0, min_token_b: 0 },
    )
    .unwrap();
    check(&store);
    execute(
        &mut store,
        1,
        ExecuteMsg::RemoveLiquidity { amount: 1, min_token_a: 0, min_token_b: 0 },
    )
    .unwrap();
    check(&store);
}

#[test]
fn remove_liquidity_partial_floors_payouts() {
    // Pool (1000, 2000), 1000 shares; redeem 333:
    // floor(333 * 1000 / 1000) = 333 of A, floor(333 * 2000 / 1000) = 666 of B.
    let mut store = funded_store();
    let r = execute(
        &mut store,
        1000,
        ExecuteMsg::RemoveLiquidity { amount: 333, min_token_a: 0, min_token_b: 0 },
    )
    .unwrap();
    assert_eq!(r.reply, ExecReply::RemoveLiquidity { token_a_out: 333, token_b_out: 666 });
    assert_eq!(reserves(&store), (667, 1334));
}

#[test]
fn remove_liquidity_more_than_total_fails() {
    let mut store = funded_store();
    let r = execute(
        &mut store,
        5000,
        ExecuteMsg::RemoveLiquidity { amount: 1001, min_token_a: 0, min_token_b: 0 },
    );
    assert_eq!(r.unwrap_err(), AmmError::InsufficientShares);
}

#[test]
fn remove_liquidity_more_than_caller_owns_fails() {
    let mut store = funded_store();
    let r = execute(
        &mut store,
        499,
        ExecuteMsg::RemoveLiquidity { amount: 500, min_token_a: 0, min_token_b: 0 },
    );
    assert_eq!(r.unwrap_err(), AmmError::InsufficientShares);
}

#[test]
fn remove_liquidity_zero_fails_invalid_request() {
    let mut store = funded_store();
    let r = execute(
        &mut store,
        1000,
        ExecuteMsg::RemoveLiquidity { amount: 0, min_token_a: 0, min_token_b: 0 },
    );
    assert_eq!(r.unwrap_err(), AmmError::InvalidRequest);
}

#[test]
fn remove_liquidity_slippage_bound_fails() {
    let mut store = funded_store();
    let r = execute(
        &mut store,
        1000,
        ExecuteMsg::RemoveLiquidity { amount: 500, min_token_a: 501, min_token_b: 0 },
    );
    assert_eq!(r.unwrap_err(), AmmError::ExcessiveSlippage);
    assert_eq!(reserves(&store), (1000, 2000));
}

#[test]
fn deposit_after_swap_keeps_new_price() {
    // After the 100-for-180 swap the pool is (1100, 1820). Depositing 110 of
    // A must charge ceil(110 * 1820 / 1100) = 182 of B and mint
    // floor(110 * 1000 / 1100) = 100 shares.
    let mut store = funded_store();
    execute(
        &mut store,
        0,
        ExecuteMsg::Swap { input_token: asset(1), input_amount: 100, min_output: 0 },
    )
    .unwrap();
    let r = execute(
        &mut store,
        0,
        ExecuteMsg::AddLiquidity { token_a_amount: 110, min_liquidity: 0, max_token_b: 182 },
    )
    .unwrap();
    assert_eq!(r.reply, ExecReply::AddLiquidity { shares_minted: 100, token_b_required: 182 });
    assert_eq!(reserves(&store), (1210, 2002));
}

#[test]
fn query_liquidity_reports_ledger_balance() {
    let store = funded_store();
    let r = query(&store, 777, QueryMsg::GetLiquidity { address: String::from("holder") });
    assert_eq!(r, QueryReply::Liquidity { shares_owned: 777 });
}

#[test]
fn swap_overflow_is_explicit() {
    let mut store = funded_store();
    let r = execute(
        &mut store,
        0,
        ExecuteMsg::Swap { input_token: asset(1), input_amount: u128::MAX, min_output: 0 },
    );
    assert_eq!(r.unwrap_err(), AmmError::ArithmeticOverflow);
    assert_eq!(reserves(&store), (1000, 2000));
}

#[test]
fn add_liquidity_overflow_is_explicit() {
    let mut store = funded_store();
    let r = execute(
        &mut store,
        0,
        ExecuteMsg::AddLiquidity {
            token_a_amount: u128::MAX,
            min_liquidity: 0,
            max_token_b: u128::MAX,
        },
    );
    assert_eq!(r.unwrap_err(), AmmError::ArithmeticOverflow);
    assert_eq!(reserves(&store), (1000, 2000));
}

#[test]
fn remove_liquidity_overflow_is_explicit() {
    // With both the share amount and a reserve near 2^96 the intermediate
    // product exceeds the u128 range: the failure is the explicit overflow
    // error, never a silent wrap.
    let mut store = fresh_store();
    let big = 1u128 << 96;
    execute(
        &mut store,
        0,
        ExecuteMsg::AddLiquidity { token_a_amount: big, min_liquidity: 0, max_token_b: big },
    )
    .unwrap();
    let r = execute(
        &mut store,
        big,
        ExecuteMsg::RemoveLiquidity { amount: big, min_token_a: 0, min_token_b: 0 },
    );
    assert_eq!(r.unwrap_err(), AmmError::ArithmeticOverflow);
}

#[test]
fn stale_commit_fails_concurrent_modification() {
    let mut store = fresh_store();
    let (pool, version) = store.load();
    // A commit with the loaded version succeeds and bumps the version.
    assert_eq!(store.commit(pool, version), Ok(()));
    let (pool2, version2) = store.load();
    assert_eq!(version2, version + 1);
    // Re-using the stale version is a detected race; nothing changes.
    assert_eq!(store.commit(pool2, version), Err(AmmError::ConcurrentModification));
    let (_, version3) = store.load();
    assert_eq!(version3, version2);
}
