use vstd::prelude::*;
use crate::pool::Pool;

verus! {

/// A user's sub-balances for one asset: what they have deposited and
/// borrowed, as recorded amounts and as shares of the asset's pool.
/// The shares are authoritative — the redeemable and owed values are
/// the shares taken at the pool's current exchange rates — while the
/// recorded amounts track the principal moved by the user's own
/// operations.
#[derive(Clone, Copy, Debug, PartialEq, Eq, Structural)]
pub struct AssetPosition {
    /// Identifier of the asset, equal to the pool's.
    pub asset_id: u64,
    /// Principal deposited and not yet withdrawn.
    pub deposited_amount: u64,
    /// The user's shares of the pool's deposit side.
    pub deposited_shares: u64,
    /// Principal borrowed and not yet repaid.
    pub borrowed_amount: u64,
    /// The user's shares of the pool's borrow side.
    pub borrowed_shares: u64,
}

impl AssetPosition {
    /// An empty sub-balance for one asset.
    pub open spec fn zeroed(asset_id: u64) -> AssetPosition {
        AssetPosition {
            asset_id,
            deposited_amount: 0,
            deposited_shares: 0,
            borrowed_amount: 0,
            borrowed_shares: 0,
        }
    }
}

/// Per-user state: one sub-balance per asset pool, aligned with the
/// market's pool registry index by index, and the time of the user's
/// last operation.  A user starts with no sub-balances and grows them
/// on first interaction; a sub-balance is never removed, only zeroed.
#[derive(Clone, Debug)]
pub struct UserPosition {
    /// Sub-balances, one per pool of the registry prefix the user has
    /// interacted with; `positions[i]` tracks the registry's pool `i`.
    pub positions: Vec<AssetPosition>,
    /// Time of this user's last operation, in accrual periods.
    pub last_accrual_time: u64,
}

/// A user sub-balance is consistent with the pool it tracks: same
/// asset, and no more shares than the pool's whole supply on either
/// side.
pub open spec fn position_matches_pool(pos: AssetPosition, pool: Pool) -> bool {
    &&& pos.asset_id == pool.asset_id
    &&& pos.deposited_shares <= pool.total_deposit_shares
    &&& pos.borrowed_shares <= pool.total_borrow_shares
}

impl UserPosition {
    /// Well-formedness against a pool registry: the sub-balances are a
    /// prefix of the registry, and each is consistent with its pool.
    pub open spec fn wf_with(self, pools: Seq<Pool>) -> bool {
        &&& self.positions@.len() <= pools.len()
        &&& forall|i: int|
            0 <= i < self.positions@.len() ==> position_matches_pool(
                #[trigger] self.positions@[i],
                pools[i],
            )
    }

    /// Creates a user record with no sub-balances.
    pub fn new(now: u64) -> (user: UserPosition)
        ensures
            user.positions@.len() == 0,
            user.last_accrual_time == now,
    {
        UserPosition { positions: Vec::new(), last_accrual_time: now }
    }
}

/// Extends a user's sub-balances with a zeroed entry for every
/// registry pool they do not track yet, so that each pool index has
/// its slot.  Existing sub-balances are untouched.
pub fn sync_positions(user: &mut UserPosition, pools: &Vec<Pool>)
    requires
        old(user).wf_with(pools@),
    ensures
        final(user).positions@.len() == pools@.len(),
        final(user).wf_with(pools@),
        forall|i: int|
            0 <= i < old(user).positions@.len() ==> final(user).positions@[i]
                == old(user).positions@[i],
        forall|i: int|
            old(user).positions@.len() <= i < pools@.len() ==> final(user).positions@[i]
                == AssetPosition::zeroed(pools@[i].asset_id),
        final(user).last_accrual_time == old(user).last_accrual_time,
{
    while user.positions.len() < pools.len()
        invariant
            old(user).wf_with(pools@),
            user.wf_with(pools@),
            old(user).positions@.len() <= user.positions@.len() <= pools@.len(),
            forall|i: int|
                0 <= i < old(user).positions@.len() ==> user.positions@[i]
                    == old(user).positions@[i],
            forall|i: int|
                old(user).positions@.len() <= i < user.positions@.len() ==> user.positions@[i]
                    == AssetPosition::zeroed(pools@[i].asset_id),
            user.last_accrual_time == old(user).last_accrual_time,
        decreases pools@.len() - user.positions@.len(),
    {
        let j = user.positions.len();
        user.positions.push(
            AssetPosition {
                asset_id: pools[j].asset_id,
                deposited_amount: 0,
                deposited_shares: 0,
                borrowed_amount: 0,
                borrowed_shares: 0,
            },
        );
    }
}

} // verus!
