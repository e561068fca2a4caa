use vstd::prelude::*;
use crate::accrual::accrued_value;

verus! {

/// Scale of the collateral ratios: `max_loan_to_value`,
/// `liquidation_threshold` and `liquidation_bonus` are fractions of
/// this denominator (basis points).
pub const BPS_DENOMINATOR: u64 = 10000;

/// Most pools a registry can hold; bounding the registry keeps
/// market-wide value sums well within 128-bit arithmetic.
pub const MAX_POOLS: usize = 1024;

/// Per-asset pool state: the aggregate deposits and borrows of one
/// asset, the share supplies that represent ownership of each side,
/// the interest rate, the collateral parameters, and the time of the
/// last interest accrual.  All amounts are in the common value unit of
/// the market's oracle.
#[derive(Clone, Copy, Debug, PartialEq, Eq, Structural)]
pub struct Pool {
    /// Identifier of the asset this pool tracks.
    pub asset_id: u64,
    /// Total value deposited, including accrued interest.
    pub total_deposits: u64,
    /// Share supply of the deposit side.
    pub total_deposit_shares: u64,
    /// Total value borrowed, including accrued interest.
    pub total_borrowed: u64,
    /// Share supply of the borrow side.
    pub total_borrow_shares: u64,
    /// Interest rate in percent per accrual period.
    pub interest_rate: u64,
    /// Highest debt-to-collateral ratio at which new borrowing is
    /// allowed, over `BPS_DENOMINATOR`.
    pub max_loan_to_value: u64,
    /// Debt-to-collateral ratio above which a position may be
    /// liquidated, over `BPS_DENOMINATOR`.
    pub liquidation_threshold: u64,
    /// Extra collateral awarded to a liquidator, over
    /// `BPS_DENOMINATOR`.
    pub liquidation_bonus: u64,
    /// Time of the last interest application, in accrual periods.
    pub last_accrual_time: u64,
}

impl Pool {
    /// Well-formedness of a pool: each side's share supply is backed
    /// by at least as much value (the exchange rate is at least one),
    /// a side is empty of shares exactly when it is empty of value,
    /// and the collateral ratios stay within scale.
    pub open spec fn wf(self) -> bool {
        &&& self.total_deposit_shares <= self.total_deposits
        &&& self.total_borrow_shares <= self.total_borrowed
        &&& (self.total_deposit_shares == 0 <==> self.total_deposits == 0)
        &&& (self.total_borrow_shares == 0 <==> self.total_borrowed == 0)
        &&& self.max_loan_to_value <= BPS_DENOMINATOR
        &&& self.liquidation_threshold <= BPS_DENOMINATOR
        &&& self.liquidation_bonus <= BPS_DENOMINATOR
    }

    /// Accrual periods elapsed since the last interest application.
    pub open spec fn elapsed(self, now: u64) -> nat {
        if self.last_accrual_time <= now {
            (now - self.last_accrual_time) as nat
        } else {
            0
        }
    }

    /// The deposit total after compounding interest up to `now`.
    pub open spec fn accrued_deposits(self, now: u64) -> nat {
        accrued_value(self.total_deposits as nat, self.interest_rate as nat, self.elapsed(now))
    }

    /// The borrow total after compounding interest up to `now`.
    pub open spec fn accrued_borrowed(self, now: u64) -> nat {
        accrued_value(self.total_borrowed as nat, self.interest_rate as nat, self.elapsed(now))
    }

    /// Interest can be applied: time has not run backwards and the
    /// compounded totals still fit the balance type.  A violation is a
    /// fatal host defect, not a user error.
    pub open spec fn can_accrue(self, now: u64) -> bool {
        &&& self.last_accrual_time <= now
        &&& self.accrued_deposits(now) <= u64::MAX
        &&& self.accrued_borrowed(now) <= u64::MAX
    }

    /// The pool with interest applied up to `now`: both value totals
    /// compounded, the share supplies untouched.
    pub open spec fn accrued(self, now: u64) -> Pool {
        Pool {
            total_deposits: self.accrued_deposits(now) as u64,
            total_borrowed: self.accrued_borrowed(now) as u64,
            last_accrual_time: now,
            ..self
        }
    }

    /// Creates the pool of one asset, empty on both sides.
    pub fn new(
        asset_id: u64,
        interest_rate: u64,
        max_loan_to_value: u64,
        liquidation_threshold: u64,
        liquidation_bonus: u64,
        now: u64,
    ) -> (pool: Pool)
        requires
            max_loan_to_value <= BPS_DENOMINATOR,
            liquidation_threshold <= BPS_DENOMINATOR,
            liquidation_bonus <= BPS_DENOMINATOR,
        ensures
            pool == (Pool {
                asset_id,
                total_deposits: 0,
                total_deposit_shares: 0,
                total_borrowed: 0,
                total_borrow_shares: 0,
                interest_rate,
                max_loan_to_value,
                liquidation_threshold,
                liquidation_bonus,
                last_accrual_time: now,
            }),
            pool.wf(),
    {
        Pool {
            asset_id,
            total_deposits: 0,
            total_deposit_shares: 0,
            total_borrowed: 0,
            total_borrow_shares: 0,
            interest_rate,
            max_loan_to_value,
            liquidation_threshold,
            liquidation_bonus,
            last_accrual_time: now,
        }
    }
}

/// Well-formedness of the pool registry: it stays within the
/// registry bound, every pool is well-formed, and no two pools track
/// the same asset.
pub open spec fn pools_wf(pools: Seq<Pool>) -> bool {
    &&& pools.len() <= MAX_POOLS
    &&& forall|i: int| 0 <= i < pools.len() ==> (#[trigger] pools[i]).wf()
    &&& forall|i: int, j: int|
        0 <= i < j < pools.len() ==> (#[trigger] pools[i]).asset_id != (
        #[trigger] pools[j]).asset_id
}

/// Looks an asset up in the registry, returning the index of its
/// pool.
pub fn find_pool(pools: &Vec<Pool>, asset_id: u64) -> (found: Option<usize>)
    ensures
        match found {
            Some(i) => i < pools@.len() && pools@[i as int].asset_id == asset_id,
            None => forall|i: int| 0 <= i < pools@.len() ==> pools@[i].asset_id != asset_id,
        },
{
    let mut i: usize = 0;
    while i < pools.len()
        invariant
            i <= pools@.len(),
            forall|j: int| 0 <= j < i ==> pools@[j].asset_id != asset_id,
        decreases pools@.len() - i,
    {
        if pools[i].asset_id == asset_id {
            return Some(i);
        }
        i = i + 1;
    }
    None
}

/// Adds the pool of a new asset to the registry.  Each asset gets its
/// pool exactly once: the caller checks with `find_pool` first.
pub fn register_pool(pools: &mut Vec<Pool>, pool: Pool)
    requires
        pools_wf(old(pools)@),
        old(pools)@.len() < MAX_POOLS,
        pool.wf(),
        forall|i: int| 0 <= i < old(pools)@.len() ==> old(pools)@[i].asset_id != pool.asset_id,
    ensures
        final(pools)@ == old(pools)@.push(pool),
        pools_wf(final(pools)@),
{
    pools.push(pool);
}

} // verus!
