use vstd::prelude::*;
use crate::accrual::lemma_accrued_ge;
use crate::math::{lemma_div_exact, lemma_mul_mono};
use crate::pool::Pool;
use crate::shares::{lemma_redeem_monotone, lemma_redeem_superadditive, shares_to_amount_spec};
use crate::user::UserPosition;

verus! {

/// The deposit shares a user holds in registry slot `i`; zero when
/// the user has not interacted with that pool yet.
pub open spec fn user_deposit_shares(user: UserPosition, i: int) -> nat {
    if 0 <= i < user.positions@.len() {
        user.positions@[i].deposited_shares as nat
    } else {
        0
    }
}

/// The deposit shares of registry slot `i` held across a community
/// of users.
pub open spec fn total_user_deposit_shares(users: Seq<UserPosition>, i: int) -> nat
    decreases users.len(),
{
    if users.len() == 0 {
        0
    } else {
        total_user_deposit_shares(users.drop_last(), i) + user_deposit_shares(users.last(), i)
    }
}

/// Replacing one user of a community moves the community total by
/// exactly that user's own change.
proof fn lemma_total_shares_update(users: Seq<UserPosition>, k: int, updated: UserPosition, i: int)
    requires
        0 <= k < users.len(),
    ensures
        total_user_deposit_shares(users.update(k, updated), i) + user_deposit_shares(users[k], i)
            == total_user_deposit_shares(users, i) + user_deposit_shares(updated, i),
    decreases users.len(),
{
    let replaced = users.update(k, updated);
    if k == users.len() - 1 {
        assert(replaced.drop_last() =~= users.drop_last());
        assert(replaced.last() == updated);
    } else {
        assert(replaced.drop_last() =~= users.drop_last().update(k, updated));
        assert(replaced.last() == users.last());
        lemma_total_shares_update(users.drop_last(), k, updated, i);
    }
}

/// Share conservation: for any sequence of deposits and withdrawals,
/// the deposit shares of a pool held across all users stay equal to
/// the pool's `total_deposit_shares`.  `deposit` and `withdraw`
/// ensure that one user's holding and the pool's supply move by the
/// same delta; this law lifts that to a whole community: if the
/// community total matched the pool's supply before such an
/// operation, it matches after it.
pub proof fn lemma_share_conservation(
    users: Seq<UserPosition>,
    k: int,
    updated: UserPosition,
    i: int,
    supply_before: nat,
    supply_after: nat,
)
    requires
        0 <= k < users.len(),
        total_user_deposit_shares(users, i) == supply_before,
        user_deposit_shares(updated, i) + supply_before == user_deposit_shares(users[k], i)
            + supply_after,
    ensures
        total_user_deposit_shares(users.update(k, updated), i) == supply_after,
{
    lemma_total_shares_update(users, k, updated, i);
}

/// The redeemable value of one user for registry slot `i`, at the
/// pool's current totals.
pub open spec fn user_redeemable(user: UserPosition, pool: Pool, i: int) -> nat {
    shares_to_amount_spec(
        user_deposit_shares(user, i),
        pool.total_deposits as nat,
        pool.total_deposit_shares as nat,
    )
}

/// The redeemable value of registry slot `i` across a community of
/// users.
pub open spec fn total_user_redeemable(users: Seq<UserPosition>, pool: Pool, i: int) -> nat
    decreases users.len(),
{
    if users.len() == 0 {
        0
    } else {
        total_user_redeemable(users.drop_last(), pool, i) + user_redeemable(
            users.last(),
            pool,
            i,
        )
    }
}

/// A community redeems no more in parts than it would as one holder.
proof fn lemma_total_redeemable_le(users: Seq<UserPosition>, pool: Pool, i: int)
    ensures
        total_user_redeemable(users, pool, i) <= shares_to_amount_spec(
            total_user_deposit_shares(users, i),
            pool.total_deposits as nat,
            pool.total_deposit_shares as nat,
        ),
    decreases users.len(),
{
    if users.len() > 0 {
        lemma_total_redeemable_le(users.drop_last(), pool, i);
        lemma_redeem_superadditive(
            total_user_deposit_shares(users.drop_last(), i),
            user_deposit_shares(users.last(), i),
            pool.total_deposits as nat,
            pool.total_deposit_shares as nat,
        );
    }
}

/// The pool's deposit total covers every user's redeemable value:
/// when the shares a community holds do not exceed the pool's share
/// supply — as share conservation keeps them — the sum of the
/// community's redeemable values does not exceed the pool's
/// `total_deposits`.
pub proof fn lemma_deposits_cover_redeemable(users: Seq<UserPosition>, pool: Pool, i: int)
    requires
        pool.wf(),
        total_user_deposit_shares(users, i) <= pool.total_deposit_shares,
    ensures
        total_user_redeemable(users, pool, i) <= pool.total_deposits,
{
    lemma_total_redeemable_le(users, pool, i);
    lemma_redeem_monotone(
        total_user_deposit_shares(users, i),
        pool.total_deposit_shares as nat,
        pool.total_deposits as nat,
        pool.total_deposit_shares as nat,
    );
    if pool.total_deposit_shares != 0 {
        lemma_div_exact(pool.total_deposits as int, pool.total_deposit_shares as int);
    }
}

/// The deposit exchange rate never falls while interest accrues: the
/// accrued deposit total against the unchanged share supply is at
/// least the old total against it, for any rate and any elapsed
/// time.  Together with the same clause of `deposit`, the rate is
/// non-decreasing over time absent withdrawals.
pub proof fn lemma_accrual_rate_non_decreasing(pool: Pool, now: u64)
    requires
        pool.wf(),
        pool.can_accrue(now),
    ensures
        pool.accrued(now).total_deposit_shares == pool.total_deposit_shares,
        pool.accrued(now).total_deposits * pool.total_deposit_shares >= pool.total_deposits
            * pool.accrued(now).total_deposit_shares,
{
    lemma_accrued_ge(pool.total_deposits as nat, pool.interest_rate as nat, pool.elapsed(now));
    lemma_mul_mono(
        pool.total_deposits as int,
        pool.accrued(now).total_deposits as int,
        pool.total_deposit_shares as int,
    );
}

} // verus!
