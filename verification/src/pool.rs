//! The pool record and its funding invariant.

use vstd::prelude::*;

verus! {

/// An opaque asset identifier. The surrounding runtime maps whatever it uses
/// to address tokens (bech32 addresses, denoms) onto these plain numbers; the
/// core only ever compares them for equality.
#[derive(Clone, Copy, Debug, PartialEq, Eq, Structural)]
pub struct AssetId {
    pub id: u64,
}

/// The authoritative pool record: the ledger-held reserves of the two paired
/// assets and the total outstanding liquidity shares. Individual share
/// balances live on the external ledger, never here.
#[derive(Clone, Copy, Debug, PartialEq, Eq, Structural)]
pub struct Pool {
    /// Identifier of asset A; fixed at instantiation.
    pub asset_a: AssetId,
    /// Identifier of asset B; fixed at instantiation, distinct from A.
    pub asset_b: AssetId,
    /// Ledger-held balance of asset A attributed to the pool.
    pub reserve_a: u128,
    /// Ledger-held balance of asset B attributed to the pool.
    pub reserve_b: u128,
    /// Total outstanding liquidity shares.
    pub total_shares: u128,
}

impl Pool {
    /// Well-formedness: the two assets are distinct, and the pool is either
    /// fully empty (no shares, no reserves) or fully funded (shares
    /// outstanding and both reserves positive). Established at instantiation
    /// and preserved by every transition.
    pub open spec fn wf(self) -> bool {
        &&& self.asset_a != self.asset_b
        &&& (self.total_shares == 0 <==> self.reserve_a == 0)
        &&& (self.total_shares == 0 <==> self.reserve_b == 0)
    }

    /// The constant-product invariant quantity `k = reserve_a * reserve_b`.
    /// Swaps never decrease it; that is the pool's pricing guarantee.
    pub open spec fn product(self) -> int {
        self.reserve_a * self.reserve_b
    }

    /// Whether liquidity has been deposited: equivalent, for a well-formed
    /// pool, to both reserves being positive.
    pub open spec fn is_funded(self) -> bool {
        self.total_shares > 0
    }

    /// Whether `asset` is one of the pool's two sides.
    pub open spec fn holds_asset(self, asset: AssetId) -> bool {
        asset == self.asset_a || asset == self.asset_b
    }

    /// The empty pool over a distinct asset pair, the state every instance
    /// starts in.
    pub fn empty(asset_a: AssetId, asset_b: AssetId) -> (p: Pool)
        requires
            asset_a != asset_b,
        ensures
            p == (Pool {
                asset_a,
                asset_b,
                reserve_a: 0,
                reserve_b: 0,
                total_shares: 0,
            }),
            p.wf(),
    {
        Pool { asset_a, asset_b, reserve_a: 0, reserve_b: 0, total_shares: 0 }
    }
}

} // verus!
