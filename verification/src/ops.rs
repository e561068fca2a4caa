use vstd::prelude::*;
use crate::accrual::{accrue_all, accrue_balance, accrue_interest, lemma_accrued_pool_wf};
use crate::errors::ErrorCode;
use crate::math::{lemma_mul_mono, lemma_value_scale_fits};
use crate::pool::{pools_wf, Pool, BPS_DENOMINATOR};
use crate::shares::{
    amount_to_shares, amount_to_shares_spec, lemma_burn_all_bounds, lemma_burn_bounds,
    lemma_issue_bounds, shares_to_amount, shares_to_amount_spec,
};
use crate::user::{position_matches_pool, AssetPosition, UserPosition};
use crate::valuation::{
    collateral_value, collateral_value_spec, debt_value, debt_value_spec, position_debt_value,
};
use vstd::arithmetic::mul::{
    lemma_mul_is_distributive_add, lemma_mul_is_distributive_add_other_way,
};

verus! {

/// Recorded principal left after paying `amount` off `balance`:
/// interest can make the true value owed or redeemable outgrow the
/// recorded principal, so the recording stops at zero.
pub open spec fn clamped_deduct(balance: u64, amount: u64) -> u64 {
    if amount >= balance {
        0
    } else {
        (balance - amount) as u64
    }
}

/// Deposit shares minted for `amount` against the accrued pool.
pub open spec fn deposit_minted(pool: Pool, amount: u64, now: u64) -> nat {
    amount_to_shares_spec(
        amount as nat,
        pool.accrued_deposits(now),
        pool.total_deposit_shares as nat,
    )
}

/// The pool after a deposit of `amount` at `now`: accrued, then grown
/// by the amount and the minted shares.
pub open spec fn pool_after_deposit(pool: Pool, amount: u64, now: u64) -> Pool {
    Pool {
        total_deposits: (pool.accrued_deposits(now) + amount) as u64,
        total_deposit_shares: (pool.total_deposit_shares + deposit_minted(
            pool,
            amount,
            now,
        )) as u64,
        ..pool.accrued(now)
    }
}

/// The user's sub-balance after a deposit of `amount` at `now`.
pub open spec fn position_after_deposit(
    pos: AssetPosition,
    pool: Pool,
    amount: u64,
    now: u64,
) -> AssetPosition {
    AssetPosition {
        deposited_amount: (pos.deposited_amount + amount) as u64,
        deposited_shares: (pos.deposited_shares + deposit_minted(pool, amount, now)) as u64,
        ..pos
    }
}

/// Deposits `amount` of the pool's asset for the user: accrues the
/// pool's interest, mints deposit shares against the accrued totals,
/// and grows the pool's and the user's deposit balances together.
/// The host moves the tokens into pool custody; this core cannot
/// fail.  The deposit exchange rate never falls.
pub fn deposit(pool: &mut Pool, user: &mut UserPosition, i: usize, amount: u64, now: u64)
    requires
        old(pool).wf(),
        old(pool).can_accrue(now),
        i < old(user).positions@.len(),
        position_matches_pool(old(user).positions@[i as int], *old(pool)),
        1 <= amount,
        old(pool).accrued_deposits(now) + amount <= u64::MAX,
        old(user).positions@[i as int].deposited_amount + amount <= u64::MAX,
    ensures
        *final(pool) == pool_after_deposit(*old(pool), amount, now),
        final(pool).wf(),
        final(user).positions@ == old(user).positions@.update(
            i as int,
            position_after_deposit(old(user).positions@[i as int], *old(pool), amount, now),
        ),
        final(user).last_accrual_time == now,
        position_matches_pool(final(user).positions@[i as int], *final(pool)),
        // The deposit exchange rate is non-decreasing.
        final(pool).total_deposits * old(pool).total_deposit_shares >= old(pool).total_deposits
            * final(pool).total_deposit_shares,
        // The pool's share supply and the user's holding move by the
        // same delta.
        final(pool).total_deposit_shares - old(pool).total_deposit_shares
            == final(user).positions@[i as int].deposited_shares
            - old(user).positions@[i as int].deposited_shares,
{
    proof {
        lemma_accrued_pool_wf(*pool, now);
    }
    let ghost pool0 = *pool;
    accrue_interest(pool, now);
    let minted = amount_to_shares(amount, pool.total_deposits, pool.total_deposit_shares);
    proof {
        lemma_issue_bounds(
            amount as nat,
            pool.total_deposits as nat,
            pool.total_deposit_shares as nat,
        );
        let d0 = pool0.total_deposits as int;
        let s0 = pool0.total_deposit_shares as int;
        let dacc = pool0.accrued_deposits(now) as int;
        let m = deposit_minted(pool0, amount, now) as int;
        lemma_mul_is_distributive_add(dacc, s0, m);
        lemma_mul_is_distributive_add_other_way(s0, dacc, amount as int);
        lemma_mul_mono(d0, dacc, s0 + m);
        assert((dacc + amount) * s0 >= d0 * (s0 + m));
    }
    pool.total_deposits = pool.total_deposits + amount;
    pool.total_deposit_shares = pool.total_deposit_shares + minted;
    let entry = &mut user.positions[i];
    entry.deposited_amount = entry.deposited_amount + amount;
    entry.deposited_shares = entry.deposited_shares + minted;
    user.last_accrual_time = now;
}

/// Value the user can redeem from the pool at `now`: their deposit
/// shares taken at the accrued deposit exchange rate.
pub open spec fn withdraw_redeemable(pool: Pool, pos: AssetPosition, now: u64) -> nat {
    shares_to_amount_spec(
        pos.deposited_shares as nat,
        pool.accrued_deposits(now),
        pool.total_deposit_shares as nat,
    )
}

/// Deposit shares burned for withdrawing `amount` against the accrued
/// pool.
pub open spec fn withdraw_burned(pool: Pool, amount: u64, now: u64) -> nat {
    amount_to_shares_spec(
        amount as nat,
        pool.accrued_deposits(now),
        pool.total_deposit_shares as nat,
    )
}

/// The pool after a withdrawal of `amount` at `now`: accrued, then
/// shrunk by the amount and the burned shares.
pub open spec fn pool_after_withdraw(pool: Pool, amount: u64, now: u64) -> Pool {
    Pool {
        total_deposits: (pool.accrued_deposits(now) - amount) as u64,
        total_deposit_shares: (pool.total_deposit_shares - withdraw_burned(
            pool,
            amount,
            now,
        )) as u64,
        ..pool.accrued(now)
    }
}

/// The user's sub-balance after a withdrawal of `amount` at `now`.
pub open spec fn position_after_withdraw(
    pos: AssetPosition,
    pool: Pool,
    amount: u64,
    now: u64,
) -> AssetPosition {
    AssetPosition {
        deposited_amount: clamped_deduct(pos.deposited_amount, amount),
        deposited_shares: (pos.deposited_shares - withdraw_burned(pool, amount, now)) as u64,
        ..pos
    }
}

/// Withdraws `amount` of the pool's asset for the user: accrues the
/// pool's interest, checks the user's redeemable value against the
/// accrued totals, and on success burns the share equivalent of the
/// amount from the pool and the user together; the host then pays the
/// amount out.  A withdrawal above the redeemable value fails with
/// `InsufficientFunds` and mutates nothing.
pub fn withdraw(pool: &mut Pool, user: &mut UserPosition, i: usize, amount: u64, now: u64) -> (result:
    Result<(), ErrorCode>)
    requires
        old(pool).wf(),
        old(pool).can_accrue(now),
        i < old(user).positions@.len(),
        position_matches_pool(old(user).positions@[i as int], *old(pool)),
        1 <= amount,
    ensures
        match result {
            Ok(()) => {
                &&& amount <= withdraw_redeemable(
                    *old(pool),
                    old(user).positions@[i as int],
                    now,
                )
                &&& *final(pool) == pool_after_withdraw(*old(pool), amount, now)
                &&& final(pool).wf()
                &&& final(user).positions@ == old(user).positions@.update(
                    i as int,
                    position_after_withdraw(
                        old(user).positions@[i as int],
                        *old(pool),
                        amount,
                        now,
                    ),
                )
                &&& final(user).last_accrual_time == now
                &&& position_matches_pool(final(user).positions@[i as int], *final(pool))
                &&& final(pool).total_deposit_shares - old(pool).total_deposit_shares
                    == final(user).positions@[i as int].deposited_shares
                    - old(user).positions@[i as int].deposited_shares
            },
            Err(e) => {
                &&& e == ErrorCode::InsufficientFunds
                &&& withdraw_redeemable(*old(pool), old(user).positions@[i as int], now) < amount
                &&& *final(pool) == *old(pool)
                &&& final(user).positions@ == old(user).positions@
                &&& final(user).last_accrual_time == old(user).last_accrual_time
            },
        },
{
    proof {
        lemma_accrued_pool_wf(*pool, now);
    }
    let periods = now - pool.last_accrual_time;
    let accrued_deposits = accrue_balance(pool.total_deposits, pool.interest_rate, periods);
    let pos = user.positions[i];
    let redeemable = shares_to_amount(
        pos.deposited_shares,
        accrued_deposits,
        pool.total_deposit_shares,
    );
    if redeemable < amount {
        return Err(ErrorCode::InsufficientFunds);
    }
    proof {
        lemma_burn_bounds(
            amount as nat,
            pool.accrued_deposits(now),
            pool.total_deposit_shares as nat,
            pos.deposited_shares as nat,
        );
    }
    accrue_interest(pool, now);
    let burned = amount_to_shares(amount, pool.total_deposits, pool.total_deposit_shares);
    pool.total_deposits = pool.total_deposits - amount;
    pool.total_deposit_shares = pool.total_deposit_shares - burned;
    let entry = &mut user.positions[i];
    entry.deposited_amount = if amount >= entry.deposited_amount {
        0
    } else {
        entry.deposited_amount - amount
    };
    entry.deposited_shares = entry.deposited_shares - burned;
    user.last_accrual_time = now;
    Ok(())
}

/// Borrow shares minted for `amount` against the accrued pool.
pub open spec fn borrow_minted(pool: Pool, amount: u64, now: u64) -> nat {
    amount_to_shares_spec(
        amount as nat,
        pool.accrued_borrowed(now),
        pool.total_borrow_shares as nat,
    )
}

/// The pool after a borrow of `amount` at `now`: accrued, then grown
/// on the borrow side by the amount and the minted borrow shares.
pub open spec fn pool_after_borrow(pool: Pool, amount: u64, now: u64) -> Pool {
    Pool {
        total_borrowed: (pool.accrued_borrowed(now) + amount) as u64,
        total_borrow_shares: (pool.total_borrow_shares + borrow_minted(pool, amount, now)) as u64,
        ..pool.accrued(now)
    }
}

/// The user's sub-balance after a borrow of `amount` at `now`.
pub open spec fn position_after_borrow(
    pos: AssetPosition,
    pool: Pool,
    amount: u64,
    now: u64,
) -> AssetPosition {
    AssetPosition {
        borrowed_amount: (pos.borrowed_amount + amount) as u64,
        borrowed_shares: (pos.borrowed_shares + borrow_minted(pool, amount, now)) as u64,
        ..pos
    }
}

/// The loan-to-value rule: borrowing `amount` on top of the existing
/// debt keeps the total within `max_loan_to_value` of the collateral.
pub open spec fn borrow_allowed(
    debt: nat,
    amount: u64,
    collateral: nat,
    max_loan_to_value: u64,
) -> bool {
    (debt + amount) * (BPS_DENOMINATOR as nat) <= collateral * (max_loan_to_value as nat)
}

/// Borrows `amount` from the registry's pool `i` for the user:
/// accrues every pool, values the user's whole collateral and debt in
/// the common unit against the accrued totals, and fails with
/// `OverBorrowableAmount` — mutating nothing — if the new total debt
/// would outgrow the borrow pool's loan-to-value ratio of the
/// collateral.  On success the pool's and the user's borrow balances
/// grow together by the amount and its share equivalent, and the host
/// pays the amount out to the user.
pub fn borrow(
    pools: &mut Vec<Pool>,
    user: &mut UserPosition,
    i: usize,
    amount: u64,
    now: u64,
) -> (result: Result<(), ErrorCode>)
    requires
        pools_wf(old(pools)@),
        old(user).wf_with(old(pools)@),
        i < old(user).positions@.len(),
        forall|k: int| 0 <= k < old(pools)@.len() ==> (#[trigger] old(pools)@[k]).can_accrue(now),
        1 <= amount,
        old(pools)@[i as int].accrued_borrowed(now) + amount <= u64::MAX,
        old(user).positions@[i as int].borrowed_amount + amount <= u64::MAX,
    ensures
        final(pools)@.len() == old(pools)@.len(),
        match result {
            Ok(()) => {
                &&& borrow_allowed(
                    debt_value_spec(old(pools)@, old(user).positions@, now),
                    amount,
                    collateral_value_spec(old(pools)@, old(user).positions@, now),
                    old(pools)@[i as int].max_loan_to_value,
                )
                &&& forall|k: int|
                    0 <= k < old(pools)@.len() && k != i
                        ==> final(pools)@[k] == (#[trigger] old(pools)@[k]).accrued(now)
                &&& final(pools)@[i as int] == pool_after_borrow(
                    old(pools)@[i as int],
                    amount,
                    now,
                )
                &&& pools_wf(final(pools)@)
                &&& final(user).positions@ == old(user).positions@.update(
                    i as int,
                    position_after_borrow(
                        old(user).positions@[i as int],
                        old(pools)@[i as int],
                        amount,
                        now,
                    ),
                )
                &&& final(user).last_accrual_time == now
                &&& final(user).wf_with(final(pools)@)
            },
            Err(e) => {
                &&& e == ErrorCode::OverBorrowableAmount
                &&& !borrow_allowed(
                    debt_value_spec(old(pools)@, old(user).positions@, now),
                    amount,
                    collateral_value_spec(old(pools)@, old(user).positions@, now),
                    old(pools)@[i as int].max_loan_to_value,
                )
                &&& final(pools)@ == old(pools)@
                &&& final(user).positions@ == old(user).positions@
                &&& final(user).last_accrual_time == old(user).last_accrual_time
            },
        },
{
    let debt = debt_value(pools, user, now);
    let collateral = collateral_value(pools, user, now);
    let loan_to_value = pools[i].max_loan_to_value;
    proof {
        lemma_value_scale_fits(
            debt as int,
            user.positions@.len() as int,
            BPS_DENOMINATOR as int,
        );
        lemma_value_scale_fits(
            collateral as int,
            user.positions@.len() as int,
            loan_to_value as int,
        );
    }
    let owed_after: u128 = debt + (amount as u128);
    if owed_after * (BPS_DENOMINATOR as u128) > collateral * (loan_to_value as u128) {
        return Err(ErrorCode::OverBorrowableAmount);
    }
    let ghost pools0 = pools@;
    accrue_all(pools, now);
    let minted = amount_to_shares(amount, pools[i].total_borrowed, pools[i].total_borrow_shares);
    proof {
        lemma_accrued_pool_wf(pools0[i as int], now);
        lemma_issue_bounds(
            amount as nat,
            pools0[i as int].accrued_borrowed(now),
            pools0[i as int].total_borrow_shares as nat,
        );
    }
    let mut grown = pools[i];
    grown.total_borrowed = grown.total_borrowed + amount;
    grown.total_borrow_shares = grown.total_borrow_shares + minted;
    pools[i] = grown;
    let entry = &mut user.positions[i];
    entry.borrowed_amount = entry.borrowed_amount + amount;
    entry.borrowed_shares = entry.borrowed_shares + minted;
    user.last_accrual_time = now;
    proof {
        assert forall|k: int| 0 <= k < pools@.len() implies (#[trigger] pools@[k]).wf() by {
            if k != i {
                lemma_accrued_pool_wf(pools0[k], now);
            }
        }
        assert forall|k: int|
            0 <= k < user.positions@.len() implies position_matches_pool(
            #[trigger] user.positions@[k],
            pools@[k],
        ) by {}
    }
    Ok(())
}

/// Value the user owes the pool at `now`: their borrow shares taken
/// at the accrued borrow exchange rate.
pub open spec fn repay_owed(pool: Pool, pos: AssetPosition, now: u64) -> nat {
    position_debt_value(pool, pos, now)
}

/// Borrow shares burned for repaying `amount` against the accrued
/// pool: the share equivalent of the amount, or the user's whole
/// holding when the amount settles the whole debt, so that a full
/// repayment leaves no dust shares behind.
pub open spec fn repay_burned(pool: Pool, pos: AssetPosition, amount: u64, now: u64) -> nat {
    if amount as nat == repay_owed(pool, pos, now) {
        pos.borrowed_shares as nat
    } else {
        amount_to_shares_spec(
            amount as nat,
            pool.accrued_borrowed(now),
            pool.total_borrow_shares as nat,
        )
    }
}

/// The pool after a repayment of `amount` at `now`: accrued, then
/// shrunk on the borrow side by the amount and the burned shares.
pub open spec fn pool_after_repay(pool: Pool, pos: AssetPosition, amount: u64, now: u64) -> Pool {
    Pool {
        total_borrowed: (pool.accrued_borrowed(now) - amount) as u64,
        total_borrow_shares: (pool.total_borrow_shares - repay_burned(
            pool,
            pos,
            amount,
            now,
        )) as u64,
        ..pool.accrued(now)
    }
}

/// The user's sub-balance after a repayment of `amount` at `now`:
/// settling the whole debt zeroes both the recorded principal and the
/// shares.
pub open spec fn position_after_repay(
    pos: AssetPosition,
    pool: Pool,
    amount: u64,
    now: u64,
) -> AssetPosition {
    AssetPosition {
        borrowed_amount: if amount as nat == repay_owed(pool, pos, now) {
            0
        } else {
            clamped_deduct(pos.borrowed_amount, amount)
        },
        borrowed_shares: (pos.borrowed_shares - repay_burned(pool, pos, amount, now)) as u64,
        ..pos
    }
}

/// Repays `amount` of the user's debt to the pool: accrues the pool's
/// interest, checks the amount against the value owed at the accrued
/// totals, and on success burns the share equivalent — the whole
/// holding on a full settlement — from the pool and the user
/// together; the host collects the amount from the user.  An amount
/// above the outstanding debt fails with `OverRepay` and mutates
/// nothing.
pub fn repay(pool: &mut Pool, user: &mut UserPosition, i: usize, amount: u64, now: u64) -> (result:
    Result<(), ErrorCode>)
    requires
        old(pool).wf(),
        old(pool).can_accrue(now),
        i < old(user).positions@.len(),
        position_matches_pool(old(user).positions@[i as int], *old(pool)),
        1 <= amount,
    ensures
        match result {
            Ok(()) => {
                &&& amount <= repay_owed(*old(pool), old(user).positions@[i as int], now)
                &&& repay_burned(*old(pool), old(user).positions@[i as int], amount, now)
                    <= old(user).positions@[i as int].borrowed_shares
                &&& *final(pool) == pool_after_repay(
                    *old(pool),
                    old(user).positions@[i as int],
                    amount,
                    now,
                )
                &&& final(pool).wf()
                &&& final(user).positions@ == old(user).positions@.update(
                    i as int,
                    position_after_repay(old(user).positions@[i as int], *old(pool), amount, now),
                )
                &&& final(user).last_accrual_time == now
                &&& position_matches_pool(final(user).positions@[i as int], *final(pool))
                &&& (amount == repay_owed(*old(pool), old(user).positions@[i as int], now)
                    ==> final(user).positions@[i as int].borrowed_shares == 0
                        && final(user).positions@[i as int].borrowed_amount == 0)
            },
            Err(e) => {
                &&& e == ErrorCode::OverRepay
                &&& repay_owed(*old(pool), old(user).positions@[i as int], now) < amount
                &&& *final(pool) == *old(pool)
                &&& final(user).positions@ == old(user).positions@
                &&& final(user).last_accrual_time == old(user).last_accrual_time
            },
        },
{
    proof {
        lemma_accrued_pool_wf(*pool, now);
    }
    let periods = now - pool.last_accrual_time;
    let accrued_borrowed = accrue_balance(pool.total_borrowed, pool.interest_rate, periods);
    let pos = user.positions[i];
    let owed = shares_to_amount(pos.borrowed_shares, accrued_borrowed, pool.total_borrow_shares);
    if amount > owed {
        return Err(ErrorCode::OverRepay);
    }
    let settles_all = amount == owed;
    accrue_interest(pool, now);
    let burned = if settles_all {
        proof {
            lemma_burn_all_bounds(
                pool.total_borrowed as nat,
                pool.total_borrow_shares as nat,
                pos.borrowed_shares as nat,
            );
        }
        pos.borrowed_shares
    } else {
        let b = amount_to_shares(amount, pool.total_borrowed, pool.total_borrow_shares);
        proof {
            lemma_burn_bounds(
                amount as nat,
                pool.total_borrowed as nat,
                pool.total_borrow_shares as nat,
                pos.borrowed_shares as nat,
            );
        }
        b
    };
    pool.total_borrowed = pool.total_borrowed - amount;
    pool.total_borrow_shares = pool.total_borrow_shares - burned;
    let entry = &mut user.positions[i];
    entry.borrowed_amount = if settles_all {
        0
    } else if amount >= entry.borrowed_amount {
        0
    } else {
        entry.borrowed_amount - amount
    };
    entry.borrowed_shares = entry.borrowed_shares - burned;
    user.last_accrual_time = now;
    Ok(())
}

} // verus!
