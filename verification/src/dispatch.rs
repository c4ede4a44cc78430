//! The transition dispatcher: validate, compute, commit, emit.
//!
//! Each inbound request is validated, computed by the matching engine
//! against a loaded snapshot, committed atomically through the store's
//! version check, and answered with the reply values plus the ordered asset
//! movements the external ledger must execute. The core never moves assets
//! itself; a failed call commits nothing and emits nothing.

use vstd::prelude::*;

use crate::error::AmmError;
use crate::liquidity::{add_liquidity, remove_liquidity, spec_add_liquidity, spec_remove_liquidity};
use crate::pool::{AssetId, Pool};
use crate::store::PoolStore;
use crate::swap::{spec_swap, swap};

verus! {

/// The instantiation request: the two asset identifiers the pool will pair.
#[derive(Clone, Copy, Debug, PartialEq, Eq, Structural)]
pub struct InstantiateMsg {
    pub token_a: AssetId,
    pub token_b: AssetId,
}

/// The three mutating requests a pool accepts.
#[derive(Clone, Copy, Debug, PartialEq, Eq, Structural)]
pub enum ExecuteMsg {
    /// Deposit `token_a_amount` of asset A and the exactly-priced matching
    /// amount of asset B (at most `max_token_b`), minting at least
    /// `min_liquidity` shares.
    AddLiquidity { token_a_amount: u128, min_liquidity: u128, max_token_b: u128 },
    /// Redeem `amount` shares for at least `min_token_a` of asset A and
    /// `min_token_b` of asset B.
    RemoveLiquidity { amount: u128, min_token_a: u128, min_token_b: u128 },
    /// Sell `input_amount` of `input_token` for at least `min_output` of the
    /// other asset.
    Swap { input_token: AssetId, input_amount: u128, min_output: u128 },
}

/// The two read-only requests. `GetLiquidity` asks for one holder's share
/// balance, a fact owned by the external share ledger and handed to
/// [`query`] by the host.
#[derive(Clone, Debug)]
pub enum QueryMsg {
    GetReserves {},
    GetLiquidity { address: String },
}

/// A party to an asset movement.
#[derive(Clone, Copy, Debug, PartialEq, Eq, Structural)]
pub enum Party {
    Caller,
    Pool,
}

/// One instruction for the external ledger. The core only emits these;
/// executing them (and rolling the whole call back if one cannot be
/// executed) is the host's job.
#[derive(Clone, Copy, Debug, PartialEq, Eq, Structural)]
pub enum Movement {
    /// Move `amount` of `asset_id` between the caller and the pool.
    Transfer { from: Party, to: Party, asset_id: AssetId, amount: u128 },
    /// Mint `amount` liquidity-share tokens to a party.
    MintShares { to: Party, amount: u128 },
    /// Burn `amount` liquidity-share tokens held by a party.
    BurnShares { from: Party, amount: u128 },
}

/// The reply values of a successful mutating request.
#[derive(Clone, Copy, Debug, PartialEq, Eq, Structural)]
pub enum ExecReply {
    AddLiquidity { shares_minted: u128, token_b_required: u128 },
    RemoveLiquidity { token_a_out: u128, token_b_out: u128 },
    Swap { output_amount: u128 },
}

/// A successful transition: the reply values and the ordered movements for
/// the external ledger.
#[derive(Clone, Debug)]
pub struct ExecResponse {
    pub reply: ExecReply,
    pub movements: Vec<Movement>,
}

/// The reply to a read-only request.
#[derive(Clone, Copy, Debug, PartialEq, Eq, Structural)]
pub enum QueryReply {
    Reserves { reserve_a: u128, reserve_b: u128 },
    Liquidity { shares_owned: u128 },
}

/// The pool side opposite to `asset` (meaningful when the pool holds
/// `asset`).
pub open spec fn spec_other_asset(p: Pool, asset: AssetId) -> AssetId {
    if asset == p.asset_a {
        p.asset_b
    } else {
        p.asset_a
    }
}

/// The movements a deposit emits: both assets caller-to-pool, then the share
/// mint.
pub open spec fn spec_add_movements(p: Pool, token_a_amount: u128, minted: u128, token_b_required: u128) -> Seq<Movement> {
    seq![
        Movement::Transfer {
            from: Party::Caller,
            to: Party::Pool,
            asset_id: p.asset_a,
            amount: token_a_amount,
        },
        Movement::Transfer {
            from: Party::Caller,
            to: Party::Pool,
            asset_id: p.asset_b,
            amount: token_b_required,
        },
        Movement::MintShares { to: Party::Caller, amount: minted },
    ]
}

/// The movements a withdrawal emits: the share burn, then both assets
/// pool-to-caller.
pub open spec fn spec_remove_movements(p: Pool, shares_amount: u128, token_a_out: u128, token_b_out: u128) -> Seq<Movement> {
    seq![
        Movement::BurnShares { from: Party::Caller, amount: shares_amount },
        Movement::Transfer {
            from: Party::Pool,
            to: Party::Caller,
            asset_id: p.asset_a,
            amount: token_a_out,
        },
        Movement::Transfer {
            from: Party::Pool,
            to: Party::Caller,
            asset_id: p.asset_b,
            amount: token_b_out,
        },
    ]
}

/// The movements a swap emits: the full input caller-to-pool, the output
/// pool-to-caller.
pub open spec fn spec_swap_movements(p: Pool, input_token: AssetId, input_amount: u128, output_amount: u128) -> Seq<Movement> {
    seq![
        Movement::Transfer {
            from: Party::Caller,
            to: Party::Pool,
            asset_id: input_token,
            amount: input_amount,
        },
        Movement::Transfer {
            from: Party::Pool,
            to: Party::Caller,
            asset_id: spec_other_asset(p, input_token),
            amount: output_amount,
        },
    ]
}

/// The full outcome of a mutating request against pool `p`: the new pool,
/// the reply values, and the emitted movements — or the error of the engine
/// it was routed to. `caller_shares` is the caller's share balance as read
/// from the external ledger, consulted only by withdrawals.
pub open spec fn spec_execute(p: Pool, caller_shares: u128, msg: ExecuteMsg) -> Result<(Pool, ExecReply, Seq<Movement>), AmmError> {
    match msg {
        ExecuteMsg::AddLiquidity { token_a_amount, min_liquidity, max_token_b } => {
            match spec_add_liquidity(p, token_a_amount, min_liquidity, max_token_b) {
                Ok(t) => Ok(
                    (
                        t.0,
                        ExecReply::AddLiquidity { shares_minted: t.1, token_b_required: t.2 },
                        spec_add_movements(p, token_a_amount, t.1, t.2),
                    ),
                ),
                Err(e) => Err(e),
            }
        },
        ExecuteMsg::RemoveLiquidity { amount, min_token_a, min_token_b } => {
            match spec_remove_liquidity(p, amount, caller_shares, min_token_a, min_token_b) {
                Ok(t) => Ok(
                    (
                        t.0,
                        ExecReply::RemoveLiquidity { token_a_out: t.1, token_b_out: t.2 },
                        spec_remove_movements(p, amount, t.1, t.2),
                    ),
                ),
                Err(e) => Err(e),
            }
        },
        ExecuteMsg::Swap { input_token, input_amount, min_output } => {
            match spec_swap(p, input_token, input_amount, min_output) {
                Ok(t) => Ok(
                    (
                        t.0,
                        ExecReply::Swap { output_amount: t.1 },
                        spec_swap_movements(p, input_token, input_amount, t.1),
                    ),
                ),
                Err(e) => Err(e),
            }
        },
    }
}

/// Create a pool instance over a distinct asset pair: an empty, version-zero
/// store. Identical identifiers are a malformed request.
pub fn instantiate(msg: InstantiateMsg) -> (r: Result<PoolStore, AmmError>)
    ensures
        msg.token_a != msg.token_b ==> (r matches Ok(s) && {
            &&& s.spec_pool() == (Pool {
                asset_a: msg.token_a,
                asset_b: msg.token_b,
                reserve_a: 0,
                reserve_b: 0,
                total_shares: 0,
            })
            &&& s.spec_version() == 0
            &&& s.wf()
        }),
        msg.token_a == msg.token_b ==> (r matches Err(e) && e == AmmError::InvalidRequest),
{
    if msg.token_a == msg.token_b {
        return Err(AmmError::InvalidRequest);
    }
    Ok(PoolStore::new(Pool::empty(msg.token_a, msg.token_b)))
}

/// Run one mutating request to completion: validate and compute against a
/// loaded snapshot, commit the proposed pool atomically, and emit the
/// movements. On any failure the stored state is exactly what it was.
/// `caller_shares` is the caller's share-token balance as read from the
/// external ledger by the host.
pub fn execute(store: &mut PoolStore, caller_shares: u128, msg: ExecuteMsg) -> (r: Result<
    ExecResponse,
    AmmError,
>)
    requires
        old(store).wf(),
        old(store).spec_version() < u64::MAX,
    ensures
        final(store).wf(),
        match spec_execute(old(store).spec_pool(), caller_shares, msg) {
            Ok(t) => {
                &&& r matches Ok(resp) && resp.reply == t.1 && resp.movements@ == t.2
                &&& final(store).spec_pool() == t.0
                &&& final(store).spec_version() == old(store).spec_version() + 1
            },
            Err(e) => {
                &&& r matches Err(got) && got == e
                &&& *final(store) == *old(store)
            },
        },
{
    let (snapshot, version) = store.load();
    match msg {
        ExecuteMsg::AddLiquidity { token_a_amount, min_liquidity, max_token_b } => {
            let (new_pool, minted, token_b_required) = match add_liquidity(
                &snapshot,
                token_a_amount,
                min_liquidity,
                max_token_b,
            ) {
                Ok(t) => t,
                Err(e) => {
                    return Err(e);
                },
            };
            match store.commit(new_pool, version) {
                Ok(u) => u,
                Err(e) => {
                    return Err(e);
                },
            };
            let mut movements: Vec<Movement> = Vec::new();
            movements.push(
                Movement::Transfer {
                    from: Party::Caller,
                    to: Party::Pool,
                    asset_id: snapshot.asset_a,
                    amount: token_a_amount,
                },
            );
            movements.push(
                Movement::Transfer {
                    from: Party::Caller,
                    to: Party::Pool,
                    asset_id: snapshot.asset_b,
                    amount: token_b_required,
                },
            );
            movements.push(Movement::MintShares { to: Party::Caller, amount: minted });
            proof {
                assert(movements@ =~= spec_add_movements(
                    snapshot,
                    token_a_amount,
                    minted,
                    token_b_required,
                ));
            }
            Ok(
                ExecResponse {
                    reply: ExecReply::AddLiquidity {
                        shares_minted: minted,
                        token_b_required,
                    },
                    movements,
                },
            )
        },
        ExecuteMsg::RemoveLiquidity { amount, min_token_a, min_token_b } => {
            let (new_pool, token_a_out, token_b_out) = match remove_liquidity(
                &snapshot,
                amount,
                caller_shares,
                min_token_a,
                min_token_b,
            ) {
                Ok(t) => t,
                Err(e) => {
                    return Err(e);
                },
            };
            match store.commit(new_pool, version) {
                Ok(u) => u,
                Err(e) => {
                    return Err(e);
                },
            };
            let mut movements: Vec<Movement> = Vec::new();
            movements.push(Movement::BurnShares { from: Party::Caller, amount });
            movements.push(
                Movement::Transfer {
                    from: Party::Pool,
                    to: Party::Caller,
                    asset_id: snapshot.asset_a,
                    amount: token_a_out,
                },
            );
            movements.push(
                Movement::Transfer {
                    from: Party::Pool,
                    to: Party::Caller,
                    asset_id: snapshot.asset_b,
                    amount: token_b_out,
                },
            );
            proof {
                assert(movements@ =~= spec_remove_movements(
                    snapshot,
                    amount,
                    token_a_out,
                    token_b_out,
                ));
            }
            Ok(
                ExecResponse {
                    reply: ExecReply::RemoveLiquidity { token_a_out, token_b_out },
                    movements,
                },
            )
        },
        ExecuteMsg::Swap { input_token, input_amount, min_output } => {
            let (new_pool, output_amount) = match swap(
                &snapshot,
                input_token,
                input_amount,
                min_output,
            ) {
                Ok(t) => t,
                Err(e) => {
                    return Err(e);
                },
            };
            match store.commit(new_pool, version) {
                Ok(u) => u,
                Err(e) => {
                    return Err(e);
                },
            };
            let output_asset: AssetId = if input_token == snapshot.asset_a {
                snapshot.asset_b
            } else {
                snapshot.asset_a
            };
            let mut movements: Vec<Movement> = Vec::new();
            movements.push(
                Movement::Transfer {
                    from: Party::Caller,
                    to: Party::Pool,
                    asset_id: input_token,
                    amount: input_amount,
                },
            );
            movements.push(
                Movement::Transfer {
                    from: Party::Pool,
                    to: Party::Caller,
                    asset_id: output_asset,
                    amount: output_amount,
                },
            );
            proof {
                assert(movements@ =~= spec_swap_movements(
                    snapshot,
                    input_token,
                    input_amount,
                    output_amount,
                ));
            }
            Ok(ExecResponse { reply: ExecReply::Swap { output_amount }, movements })
        },
    }
}

/// Answer a read-only request. `shares_owned` is the queried holder's
/// balance as read from the external share ledger by the host; the core
/// reports it unchanged.
pub fn query(store: &PoolStore, shares_owned: u128, msg: QueryMsg) -> (r: QueryReply)
    ensures
        msg matches QueryMsg::GetReserves { .. } ==> r == (QueryReply::Reserves {
            reserve_a: store.spec_pool().reserve_a,
            reserve_b: store.spec_pool().reserve_b,
        }),
        msg matches QueryMsg::GetLiquidity { .. } ==> r == (QueryReply::Liquidity {
            shares_owned,
        }),
{
    match msg {
        QueryMsg::GetReserves {  } => {
            let (snapshot, _version) = store.load();
            QueryReply::Reserves { reserve_a: snapshot.reserve_a, reserve_b: snapshot.reserve_b }
        },
        QueryMsg::GetLiquidity { address: _ } => QueryReply::Liquidity { shares_owned },
    }
}

} // verus!
