use vstd::prelude::*;
use crate::accrual::{accrue_all, accrue_balance, lemma_accrued_pool_wf};
use crate::errors::ErrorCode;
use crate::math::{
    lemma_div_bounds, lemma_div_exact, lemma_div_mono, lemma_mul_comm, lemma_mul_mono,
    lemma_scale_down, lemma_u64_product_fits, lemma_value_scale_fits,
};
use crate::ops::{pool_after_repay, pool_after_withdraw, position_after_repay,
    position_after_withdraw, repay_owed, withdraw_redeemable};
use crate::pool::{pools_wf, Pool, BPS_DENOMINATOR};
use crate::shares::{amount_to_shares, lemma_burn_all_bounds, lemma_burn_bounds};
use crate::user::{position_matches_pool, UserPosition};
use crate::valuation::{collateral_value, collateral_value_spec, debt_value, debt_value_spec};

verus! {

/// Largest fraction of a target's outstanding debt that one
/// liquidation may repay (the close factor), over `BPS_DENOMINATOR`.
pub const CLOSE_FACTOR_BPS: u64 = 5000;

/// Liquidation eligibility: the debt outgrew the collateral's
/// liquidation threshold.
pub open spec fn under_collateralized(debt: nat, collateral: nat, threshold: u64) -> bool {
    debt * (BPS_DENOMINATOR as nat) > collateral * (threshold as nat)
}

/// The debt actually repaid by a liquidation: the liquidator's offer,
/// capped by the close factor of the outstanding debt and by the
/// collateral that can cover the repayment plus its bonus.
pub open spec fn effective_repay(
    repay_amount: u64,
    owed: nat,
    redeemable: nat,
    bonus: u64,
) -> nat {
    let close_cap = (owed * (CLOSE_FACTOR_BPS as nat)) / (BPS_DENOMINATOR as nat);
    let coll_cap = (redeemable * (BPS_DENOMINATOR as nat)) / ((BPS_DENOMINATOR + bonus) as nat);
    let offered = if repay_amount as nat <= close_cap {
        repay_amount as nat
    } else {
        close_cap
    };
    if offered <= coll_cap {
        offered
    } else {
        coll_cap
    }
}

/// Collateral value handed to the liquidator: the repaid debt plus
/// the liquidation bonus, rounded down.
pub open spec fn seized_collateral(repaid: nat, bonus: u64) -> nat {
    (repaid * ((BPS_DENOMINATOR + bonus) as nat)) / (BPS_DENOMINATOR as nat)
}

/// A repayment within the collateral cap seizes no more than the
/// redeemable collateral.
proof fn lemma_seizure_within(repaid: nat, redeemable: nat, scale: nat, boosted: nat)
    requires
        0 < scale <= boosted,
        repaid <= (redeemable * scale) / boosted,
    ensures
        (repaid * boosted) / scale <= redeemable,
{
    let cap = (redeemable * scale) / boosted;
    lemma_mul_mono(repaid as int, cap as int, boosted as int);
    lemma_div_bounds((redeemable * scale) as int, boosted as int);
    lemma_mul_comm(cap as int, boosted as int);
    assert(repaid * boosted <= redeemable * scale);
    lemma_div_mono((repaid * boosted) as int, (redeemable * scale) as int, scale as int);
    lemma_div_exact(redeemable as int, scale as int);
}

/// Liquidates an under-collateralized target: the liquidator repays
/// part of the target's debt in the registry's pool `debt_i` and
/// receives collateral of the target from pool `coll_i`, worth the
/// repayment plus the collateral pool's liquidation bonus.  The eligibility check
/// compares the target's whole accrued debt value against their whole
/// accrued collateral value, at the collateral pool's liquidation
/// threshold; a healthy position fails with `NotUnderCollateralized`
/// and nothing is mutated.  On success every pool is accrued, the
/// repayment is capped by the close factor and by the target's
/// redeemable collateral, debt and collateral are burned from pool
/// and target together, and the amounts for the host's two transfers
/// — debt in from the liquidator, collateral out to them — are
/// returned as `(repaid, seized)`.
pub fn liquidate(
    pools: &mut Vec<Pool>,
    target: &mut UserPosition,
    debt_i: usize,
    coll_i: usize,
    repay_amount: u64,
    now: u64,
) -> (result: Result<(u64, u64), ErrorCode>)
    requires
        pools_wf(old(pools)@),
        old(target).wf_with(old(pools)@),
        debt_i < old(target).positions@.len(),
        coll_i < old(target).positions@.len(),
        debt_i != coll_i,
        forall|k: int| 0 <= k < old(pools)@.len() ==> (#[trigger] old(pools)@[k]).can_accrue(now),
        1 <= repay_amount,
    ensures
        final(pools)@.len() == old(pools)@.len(),
        match result {
            Ok((repaid, seized)) => {
                &&& under_collateralized(
                    debt_value_spec(old(pools)@, old(target).positions@, now),
                    collateral_value_spec(old(pools)@, old(target).positions@, now),
                    old(pools)@[coll_i as int].liquidation_threshold,
                )
                &&& repaid as nat == effective_repay(
                    repay_amount,
                    repay_owed(old(pools)@[debt_i as int], old(target).positions@[debt_i as int], now),
                    withdraw_redeemable(
                        old(pools)@[coll_i as int],
                        old(target).positions@[coll_i as int],
                        now,
                    ),
                    old(pools)@[coll_i as int].liquidation_bonus,
                )
                &&& seized as nat == seized_collateral(
                    repaid as nat,
                    old(pools)@[coll_i as int].liquidation_bonus,
                )
                &&& seized as nat <= withdraw_redeemable(
                    old(pools)@[coll_i as int],
                    old(target).positions@[coll_i as int],
                    now,
                )
                &&& forall|k: int|
                    0 <= k < old(pools)@.len() && k != debt_i && k != coll_i
                        ==> final(pools)@[k] == (#[trigger] old(pools)@[k]).accrued(now)
                &&& final(pools)@[debt_i as int] == pool_after_repay(
                    old(pools)@[debt_i as int],
                    old(target).positions@[debt_i as int],
                    repaid,
                    now,
                )
                &&& final(pools)@[coll_i as int] == pool_after_withdraw(
                    old(pools)@[coll_i as int],
                    seized,
                    now,
                )
                &&& pools_wf(final(pools)@)
                &&& final(target).positions@ == old(target).positions@.update(
                    debt_i as int,
                    position_after_repay(
                        old(target).positions@[debt_i as int],
                        old(pools)@[debt_i as int],
                        repaid,
                        now,
                    ),
                ).update(
                    coll_i as int,
                    position_after_withdraw(
                        old(target).positions@[coll_i as int],
                        old(pools)@[coll_i as int],
                        seized,
                        now,
                    ),
                )
                &&& final(target).last_accrual_time == now
                &&& final(target).wf_with(final(pools)@)
            },
            Err(e) => {
                &&& e == ErrorCode::NotUnderCollateralized
                &&& !under_collateralized(
                    debt_value_spec(old(pools)@, old(target).positions@, now),
                    collateral_value_spec(old(pools)@, old(target).positions@, now),
                    old(pools)@[coll_i as int].liquidation_threshold,
                )
                &&& final(pools)@ == old(pools)@
                &&& final(target).positions@ == old(target).positions@
                &&& final(target).last_accrual_time == old(target).last_accrual_time
            },
        },
{
    let debt = debt_value(pools, target, now);
    let collateral = collateral_value(pools, target, now);
    let threshold = pools[coll_i].liquidation_threshold;
    proof {
        lemma_value_scale_fits(
            debt as int,
            target.positions@.len() as int,
            BPS_DENOMINATOR as int,
        );
        lemma_value_scale_fits(
            collateral as int,
            target.positions@.len() as int,
            threshold as int,
        );
    }
    if debt * (BPS_DENOMINATOR as u128) <= collateral * (threshold as u128) {
        return Err(ErrorCode::NotUnderCollateralized);
    }
    let ghost pools0 = pools@;
    let pos_d = target.positions[debt_i];
    let pos_c = target.positions[coll_i];
    // Value the target's debt in the debt pool.
    let periods_d = now - pools[debt_i].last_accrual_time;
    let borrowed_grown = accrue_balance(
        pools[debt_i].total_borrowed,
        pools[debt_i].interest_rate,
        periods_d,
    );
    proof {
        lemma_accrued_pool_wf(pools0[debt_i as int], now);
        assert(position_matches_pool(target.positions@[debt_i as int], pools0[debt_i as int]));
        assert(position_matches_pool(target.positions@[coll_i as int], pools0[coll_i as int]));
    }
    let owed = crate::shares::shares_to_amount(
        pos_d.borrowed_shares,
        borrowed_grown,
        pools[debt_i].total_borrow_shares,
    );
    proof {
        lemma_scale_down(owed as int, CLOSE_FACTOR_BPS as int, BPS_DENOMINATOR as int);
    }
    let close_cap = (((owed as u128) * (CLOSE_FACTOR_BPS as u128)) / (
    BPS_DENOMINATOR as u128)) as u64;
    // Value the target's collateral in the collateral pool.
    let periods_c = now - pools[coll_i].last_accrual_time;
    let deposits_grown = accrue_balance(
        pools[coll_i].total_deposits,
        pools[coll_i].interest_rate,
        periods_c,
    );
    proof {
        lemma_accrued_pool_wf(pools0[coll_i as int], now);
    }
    let redeemable = crate::shares::shares_to_amount(
        pos_c.deposited_shares,
        deposits_grown,
        pools[coll_i].total_deposit_shares,
    );
    let bonus = pools[coll_i].liquidation_bonus;
    proof {
        lemma_scale_down(
            redeemable as int,
            BPS_DENOMINATOR as int,
            (BPS_DENOMINATOR + bonus) as int,
        );
    }
    let coll_cap = (((redeemable as u128) * (BPS_DENOMINATOR as u128)) / ((
    BPS_DENOMINATOR + bonus) as u128)) as u64;
    let mut repaid = repay_amount;
    if close_cap < repaid {
        repaid = close_cap;
    }
    if coll_cap < repaid {
        repaid = coll_cap;
    }
    proof {
        lemma_u64_product_fits(repaid as int, (BPS_DENOMINATOR + bonus) as int);
        lemma_seizure_within(
            repaid as nat,
            redeemable as nat,
            BPS_DENOMINATOR as nat,
            (BPS_DENOMINATOR + bonus) as nat,
        );
    }
    let seized = (((repaid as u128) * ((BPS_DENOMINATOR + bonus) as u128)) / (
    BPS_DENOMINATOR as u128)) as u64;
    // All checks passed: accrue everything and burn both sides.
    accrue_all(pools, now);
    let settles_all = repaid == owed;
    let debt_burned = if settles_all {
        proof {
            lemma_burn_all_bounds(
                borrowed_grown as nat,
                pools0[debt_i as int].total_borrow_shares as nat,
                pos_d.borrowed_shares as nat,
            );
        }
        pos_d.borrowed_shares
    } else {
        let b = amount_to_shares(
            repaid,
            pools[debt_i].total_borrowed,
            pools[debt_i].total_borrow_shares,
        );
        proof {
            lemma_burn_bounds(
                repaid as nat,
                borrowed_grown as nat,
                pools0[debt_i as int].total_borrow_shares as nat,
                pos_d.borrowed_shares as nat,
            );
        }
        b
    };
    let mut debt_pool = pools[debt_i];
    debt_pool.total_borrowed = debt_pool.total_borrowed - repaid;
    debt_pool.total_borrow_shares = debt_pool.total_borrow_shares - debt_burned;
    pools[debt_i] = debt_pool;
    let coll_burned = amount_to_shares(
        seized,
        pools[coll_i].total_deposits,
        pools[coll_i].total_deposit_shares,
    );
    proof {
        lemma_burn_bounds(
            seized as nat,
            deposits_grown as nat,
            pools0[coll_i as int].total_deposit_shares as nat,
            pos_c.deposited_shares as nat,
        );
    }
    let mut coll_pool = pools[coll_i];
    coll_pool.total_deposits = coll_pool.total_deposits - seized;
    coll_pool.total_deposit_shares = coll_pool.total_deposit_shares - coll_burned;
    pools[coll_i] = coll_pool;
    let entry = &mut target.positions[debt_i];
    entry.borrowed_amount = if settles_all {
        0
    } else if repaid >= entry.borrowed_amount {
        0
    } else {
        entry.borrowed_amount - repaid
    };
    entry.borrowed_shares = entry.borrowed_shares - debt_burned;
    let seat = &mut target.positions[coll_i];
    seat.deposited_amount = if seized >= seat.deposited_amount {
        0
    } else {
        seat.deposited_amount - seized
    };
    seat.deposited_shares = seat.deposited_shares - coll_burned;
    target.last_accrual_time = now;
    proof {
        assert forall|k: int| 0 <= k < pools@.len() implies (#[trigger] pools@[k]).wf() by {
            if k != debt_i && k != coll_i {
                lemma_accrued_pool_wf(pools0[k], now);
            }
        }
        assert forall|k: int|
            0 <= k < target.positions@.len() implies position_matches_pool(
            #[trigger] target.positions@[k],
            pools@[k],
        ) by {}
    }
    Ok((repaid, seized))
}

} // verus!
