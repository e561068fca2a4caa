use vstd::prelude::*;
use crate::accrual::{accrue_balance, lemma_accrued_pool_wf};
use crate::math::lemma_sum_step_fits;
use crate::pool::{pools_wf, Pool};
use crate::shares::{shares_to_amount, shares_to_amount_spec};
use crate::user::{position_matches_pool, AssetPosition, UserPosition};

verus! {

/// Collateral value, in the common unit, of one sub-balance at `now`:
/// its deposit shares taken at the pool's accrued exchange rate.
pub open spec fn position_collateral_value(pool: Pool, pos: AssetPosition, now: u64) -> nat {
    shares_to_amount_spec(
        pos.deposited_shares as nat,
        pool.accrued_deposits(now),
        pool.total_deposit_shares as nat,
    )
}

/// Debt value, in the common unit, of one sub-balance at `now`: its
/// borrow shares taken at the pool's accrued exchange rate.
pub open spec fn position_debt_value(pool: Pool, pos: AssetPosition, now: u64) -> nat {
    shares_to_amount_spec(
        pos.borrowed_shares as nat,
        pool.accrued_borrowed(now),
        pool.total_borrow_shares as nat,
    )
}

/// A user's total collateral value at `now`: the sum of their
/// sub-balances' collateral values, each against its own pool.
pub open spec fn collateral_value_spec(
    pools: Seq<Pool>,
    positions: Seq<AssetPosition>,
    now: u64,
) -> nat
    decreases positions.len(),
{
    if positions.len() == 0 {
        0
    } else {
        collateral_value_spec(pools, positions.drop_last(), now) + position_collateral_value(
            pools[positions.len() - 1],
            positions.last(),
            now,
        )
    }
}

/// A user's total debt value at `now`: the sum of their
/// sub-balances' debt values, each against its own pool.
pub open spec fn debt_value_spec(pools: Seq<Pool>, positions: Seq<AssetPosition>, now: u64) -> nat
    decreases positions.len(),
{
    if positions.len() == 0 {
        0
    } else {
        debt_value_spec(pools, positions.drop_last(), now) + position_debt_value(
            pools[positions.len() - 1],
            positions.last(),
            now,
        )
    }
}

/// Computes the user's total collateral value at `now` without
/// touching any state.
pub fn collateral_value(pools: &Vec<Pool>, user: &UserPosition, now: u64) -> (value: u128)
    requires
        pools_wf(pools@),
        user.wf_with(pools@),
        forall|k: int| 0 <= k < pools@.len() ==> (#[trigger] pools@[k]).can_accrue(now),
    ensures
        value == collateral_value_spec(pools@, user.positions@, now),
        value <= user.positions@.len() * 0xffff_ffff_ffff_ffffu128,
{
    let mut total: u128 = 0;
    let mut k: usize = 0;
    while k < user.positions.len()
        invariant
            pools_wf(pools@),
            user.wf_with(pools@),
            forall|j: int| 0 <= j < pools@.len() ==> (#[trigger] pools@[j]).can_accrue(now),
            k <= user.positions@.len(),
            total == collateral_value_spec(pools@, user.positions@.subrange(0, k as int), now),
            total <= k * 0xffff_ffff_ffff_ffffu128,
        decreases user.positions@.len() - k,
    {
        let pos = user.positions[k];
        let periods = now - pools[k].last_accrual_time;
        let grown = accrue_balance(pools[k].total_deposits, pools[k].interest_rate, periods);
        proof {
            lemma_accrued_pool_wf(pools@[k as int], now);
            assert(position_matches_pool(user.positions@[k as int], pools@[k as int]));
        }
        let item = shares_to_amount(pos.deposited_shares, grown, pools[k].total_deposit_shares);
        proof {
            lemma_sum_step_fits(
                total as int,
                item as int,
                k as int,
                0xffff_ffff_ffff_ffff as int,
            );
            assert(user.positions@.subrange(0, k + 1 as int).drop_last() =~= user.positions@
                .subrange(0, k as int));
            assert(user.positions@.subrange(0, k + 1 as int).last() == user.positions@[k as int]);
        }
        total = total + (item as u128);
        k = k + 1;
    }
    proof {
        assert(user.positions@.subrange(0, user.positions@.len() as int) =~= user.positions@);
    }
    total
}

/// Computes the user's total debt value at `now` without touching any
/// state.
pub fn debt_value(pools: &Vec<Pool>, user: &UserPosition, now: u64) -> (value: u128)
    requires
        pools_wf(pools@),
        user.wf_with(pools@),
        forall|k: int| 0 <= k < pools@.len() ==> (#[trigger] pools@[k]).can_accrue(now),
    ensures
        value == debt_value_spec(pools@, user.positions@, now),
        value <= user.positions@.len() * 0xffff_ffff_ffff_ffffu128,
{
    let mut total: u128 = 0;
    let mut k: usize = 0;
    while k < user.positions.len()
        invariant
            pools_wf(pools@),
            user.wf_with(pools@),
            forall|j: int| 0 <= j < pools@.len() ==> (#[trigger] pools@[j]).can_accrue(now),
            k <= user.positions@.len(),
            total == debt_value_spec(pools@, user.positions@.subrange(0, k as int), now),
            total <= k * 0xffff_ffff_ffff_ffffu128,
        decreases user.positions@.len() - k,
    {
        let pos = user.positions[k];
        let periods = now - pools[k].last_accrual_time;
        let grown = accrue_balance(pools[k].total_borrowed, pools[k].interest_rate, periods);
        proof {
            lemma_accrued_pool_wf(pools@[k as int], now);
            assert(position_matches_pool(user.positions@[k as int], pools@[k as int]));
        }
        let item = shares_to_amount(pos.borrowed_shares, grown, pools[k].total_borrow_shares);
        proof {
            lemma_sum_step_fits(
                total as int,
                item as int,
                k as int,
                0xffff_ffff_ffff_ffff as int,
            );
            assert(user.positions@.subrange(0, k + 1 as int).drop_last() =~= user.positions@
                .subrange(0, k as int));
            assert(user.positions@.subrange(0, k + 1 as int).last() == user.positions@[k as int]);
        }
        total = total + (item as u128);
        k = k + 1;
    }
    proof {
        assert(user.positions@.subrange(0, user.positions@.len() as int) =~= user.positions@);
    }
    total
}

} // verus!
