use vstd::prelude::*;
use crate::math::{lemma_div_bounds, lemma_div_exact, lemma_div_mono, lemma_mul_mono};
use crate::pool::pools_wf;
use crate::pool::Pool;

verus! {

/// One accrual period of compound interest at `rate` percent:
/// `value * (100 + rate) / 100`, rounded down.
pub open spec fn growth_step(value: nat, rate: nat) -> nat {
    (value * (100 + rate)) / 100
}

/// `value` compounded over `periods` accrual periods at `rate`
/// percent per period, each step rounded down: the integer reading of
/// continuous growth that keeps repeated small steps deterministic.
pub open spec fn accrued_value(value: nat, rate: nat, periods: nat) -> nat
    decreases periods,
{
    if periods == 0 {
        value
    } else {
        growth_step(accrued_value(value, rate, (periods - 1) as nat), rate)
    }
}

/// One accrual step never shrinks a value.
pub proof fn lemma_growth_step_ge(value: nat, rate: nat)
    ensures
        value <= growth_step(value, rate),
{
    lemma_mul_mono(100, 100 + rate as int, value as int);
    lemma_div_mono(value as int * 100, value as int * (100 + rate as int), 100);
    lemma_div_exact(value as int, 100);
}

/// Accrual never shrinks a value.
pub proof fn lemma_accrued_ge(value: nat, rate: nat, periods: nat)
    ensures
        value <= accrued_value(value, rate, periods),
    decreases periods,
{
    if periods > 0 {
        lemma_accrued_ge(value, rate, (periods - 1) as nat);
        lemma_growth_step_ge(accrued_value(value, rate, (periods - 1) as nat), rate);
    }
}

/// Accrual is monotone in the number of elapsed periods.
pub proof fn lemma_accrued_mono_periods(value: nat, rate: nat, p1: nat, p2: nat)
    requires
        p1 <= p2,
    ensures
        accrued_value(value, rate, p1) <= accrued_value(value, rate, p2),
    decreases p2,
{
    if p1 < p2 {
        lemma_accrued_mono_periods(value, rate, p1, (p2 - 1) as nat);
        lemma_growth_step_ge(accrued_value(value, rate, (p2 - 1) as nat), rate);
    }
}

/// Nothing accrues on an empty balance.
pub proof fn lemma_accrued_zero(rate: nat, periods: nat)
    ensures
        accrued_value(0, rate, periods) == 0,
    decreases periods,
{
    if periods > 0 {
        lemma_accrued_zero(rate, (periods - 1) as nat);
        vstd::arithmetic::mul::lemma_mul_basics(100 + rate as int);
        assert(growth_step(0, rate) == 0);
    }
}

/// Applying interest preserves a pool's well-formedness, grows both
/// value totals, and is idempotent within one instant.
pub proof fn lemma_accrued_pool_wf(pool: Pool, now: u64)
    requires
        pool.wf(),
        pool.can_accrue(now),
    ensures
        pool.accrued(now).wf(),
        pool.total_deposits <= pool.accrued(now).total_deposits,
        pool.total_borrowed <= pool.accrued(now).total_borrowed,
        pool.accrued(now).can_accrue(now),
        pool.accrued(now).accrued(now) == pool.accrued(now),
{
    lemma_accrued_ge(pool.total_deposits as nat, pool.interest_rate as nat, pool.elapsed(now));
    lemma_accrued_ge(pool.total_borrowed as nat, pool.interest_rate as nat, pool.elapsed(now));
    if pool.total_deposit_shares == 0 {
        lemma_accrued_zero(pool.interest_rate as nat, pool.elapsed(now));
    }
    if pool.total_borrow_shares == 0 {
        lemma_accrued_zero(pool.interest_rate as nat, pool.elapsed(now));
    }
    assert(pool.accrued(now).elapsed(now) == 0);
}

/// Compounds a single balance over the elapsed periods.
pub fn accrue_balance(value: u64, rate: u64, periods: u64) -> (grown: u64)
    requires
        accrued_value(value as nat, rate as nat, periods as nat) <= u64::MAX,
    ensures
        grown as nat == accrued_value(value as nat, rate as nat, periods as nat),
{
    let mut cur: u64 = value;
    let mut i: u64 = 0;
    while i < periods
        invariant
            i <= periods,
            cur as nat == accrued_value(value as nat, rate as nat, i as nat),
            accrued_value(value as nat, rate as nat, periods as nat) <= u64::MAX,
        decreases periods - i,
    {
        proof {
            lemma_accrued_mono_periods(value as nat, rate as nat, (i + 1) as nat, periods as nat);
            assert(accrued_value(value as nat, rate as nat, (i + 1) as nat) == growth_step(
                cur as nat,
                rate as nat,
            ));
            lemma_div_bounds(cur as int * (100 + rate as int), 100);
        }
        let prod: u128 = (cur as u128) * (100u128 + (rate as u128));
        let next: u128 = prod / 100;
        cur = next as u64;
        i = i + 1;
    }
    cur
}

/// Advances a pool's accounting to `now` by compounding both value
/// totals; the share supplies and parameters are untouched.  The
/// deposit exchange rate cannot fall: the deposit total only grows
/// while the share supply stays.  Idempotent when no period has
/// elapsed.
pub fn accrue_interest(pool: &mut Pool, now: u64)
    requires
        old(pool).wf(),
        old(pool).can_accrue(now),
    ensures
        *final(pool) == old(pool).accrued(now),
        final(pool).wf(),
        old(pool).total_deposits <= final(pool).total_deposits,
        old(pool).total_borrowed <= final(pool).total_borrowed,
        // The deposit exchange rate is non-decreasing.
        final(pool).total_deposits * old(pool).total_deposit_shares >= old(pool).total_deposits
            * final(pool).total_deposit_shares,
{
    proof {
        lemma_accrued_pool_wf(*pool, now);
        lemma_mul_mono(
            pool.total_deposits as int,
            pool.accrued(now).total_deposits as int,
            pool.total_deposit_shares as int,
        );
    }
    let periods = now - pool.last_accrual_time;
    let deposits = accrue_balance(pool.total_deposits, pool.interest_rate, periods);
    let borrowed = accrue_balance(pool.total_borrowed, pool.interest_rate, periods);
    pool.total_deposits = deposits;
    pool.total_borrowed = borrowed;
    pool.last_accrual_time = now;
}

/// Advances every pool of the registry to `now`.  Used by the
/// operations that value a user's whole portfolio, so that every
/// share conversion runs against freshly accrued totals.
pub fn accrue_all(pools: &mut Vec<Pool>, now: u64)
    requires
        pools_wf(old(pools)@),
        forall|k: int| 0 <= k < old(pools)@.len() ==> (#[trigger] old(pools)@[k]).can_accrue(now),
    ensures
        final(pools)@.len() == old(pools)@.len(),
        forall|k: int|
            0 <= k < old(pools)@.len() ==> final(pools)@[k] == (#[trigger] old(
                pools,
            )@[k]).accrued(now),
        pools_wf(final(pools)@),
{
    let n = pools.len();
    let mut k: usize = 0;
    while k < n
        invariant
            pools_wf(old(pools)@),
            forall|j: int|
                0 <= j < old(pools)@.len() ==> (#[trigger] old(pools)@[j]).can_accrue(now),
            n == old(pools)@.len(),
            pools@.len() == n,
            k <= n,
            forall|j: int| 0 <= j < k ==> pools@[j] == (#[trigger] old(pools)@[j]).accrued(now),
            forall|j: int| k <= j < n ==> #[trigger] pools@[j] == old(pools)@[j],
        decreases n - k,
    {
        let mut p = pools[k];
        accrue_interest(&mut p, now);
        pools[k] = p;
        k = k + 1;
    }
    proof {
        assert forall|j: int| 0 <= j < pools@.len() implies (#[trigger] pools@[j]).wf() by {
            lemma_accrued_pool_wf(old(pools)@[j], now);
        }
        assert forall|i: int, j: int| 0 <= i < j < pools@.len() implies (
        #[trigger] pools@[i]).asset_id != (#[trigger] pools@[j]).asset_id by {
            assert(pools@[i] == old(pools)@[i].accrued(now));
            assert(pools@[j] == old(pools)@[j].accrued(now));
            assert(old(pools)@[i].asset_id != old(pools)@[j].asset_id);
        }
    }
}

} // verus!
