use vstd::prelude::*;
use crate::math::{lemma_div_bounds, lemma_div_exact, lemma_div_mono, lemma_mul_comm,
    lemma_mul_mono, lemma_scale_down, lemma_u64_product_fits};
use vstd::arithmetic::mul::lemma_mul_inequality_converse;

verus! {

/// Shares minted for `amount` of fresh value, against already-accrued
/// totals: one share per unit on an empty pool, otherwise proportional
/// to the existing share supply, rounded down so that ownership is
/// never over-credited.
pub open spec fn amount_to_shares_spec(amount: nat, total_value: nat, total_shares: nat) -> nat {
    if total_shares == 0 {
        amount
    } else if total_value == 0 {
        0
    } else {
        (amount * total_shares) / total_value
    }
}

/// Value redeemed by `shares`, against already-accrued totals: nothing
/// on an empty pool, otherwise proportional to the pool's total value,
/// rounded down so that redemption never over-pays.
pub open spec fn shares_to_amount_spec(shares: nat, total_value: nat, total_shares: nat) -> nat {
    if total_shares == 0 {
        0
    } else {
        (shares * total_value) / total_shares
    }
}

/// Converts an absolute amount into pool shares.
pub fn amount_to_shares(amount: u64, total_value: u64, total_shares: u64) -> (shares: u64)
    requires
        total_shares <= total_value,
    ensures
        shares == amount_to_shares_spec(amount as nat, total_value as nat, total_shares as nat),
        shares <= amount,
{
    if total_shares == 0 {
        amount
    } else {
        proof {
            lemma_u64_product_fits(amount as int, total_shares as int);
        }
        let num: u128 = (amount as u128) * (total_shares as u128);
        let q: u128 = num / (total_value as u128);
        proof {
            lemma_scale_down(amount as int, total_shares as int, total_value as int);
        }
        q as u64
    }
}

/// Converts pool shares back into an absolute amount.
pub fn shares_to_amount(shares: u64, total_value: u64, total_shares: u64) -> (amount: u64)
    requires
        total_shares <= total_value,
        shares <= total_shares,
    ensures
        amount == shares_to_amount_spec(shares as nat, total_value as nat, total_shares as nat),
        amount <= total_value,
{
    if total_shares == 0 {
        0
    } else {
        proof {
            lemma_u64_product_fits(shares as int, total_value as int);
        }
        let num: u128 = (shares as u128) * (total_value as u128);
        let q: u128 = num / (total_shares as u128);
        proof {
            lemma_scale_down(total_value as int, shares as int, total_shares as int);
            lemma_mul_comm(shares as int, total_value as int);
        }
        q as u64
    }
}

/// Minting shares for deposited or borrowed value keeps the share
/// supply below the value it represents: the minted shares never
/// exceed the amount, and the exchange rate never falls
/// (`total_value * minted <= amount * total_shares`).
pub proof fn lemma_issue_bounds(amount: nat, total_value: nat, total_shares: nat)
    requires
        total_shares <= total_value,
        total_shares == 0 ==> total_value == 0,
    ensures
        amount_to_shares_spec(amount, total_value, total_shares) <= amount,
        total_value * amount_to_shares_spec(amount, total_value, total_shares) <= amount
            * total_shares,
{
    let m = amount_to_shares_spec(amount, total_value, total_shares);
    if total_shares == 0 {
        assert(total_value == 0);
        assert(total_value * m == 0);
    } else {
        lemma_scale_down(amount as int, total_shares as int, total_value as int);
        lemma_div_bounds((amount * total_shares) as int, total_value as int);
    }
}

/// Burning the share equivalent of a redeemed amount stays within the
/// redeeming user's holding and the pool's totals, and keeps the pool
/// exactly drained only when the user drained it:
/// both sides reach zero together.
pub proof fn lemma_burn_bounds(amount: nat, total_value: nat, total_shares: nat, user_shares: nat)
    requires
        total_shares <= total_value,
        (total_shares == 0) <==> (total_value == 0),
        user_shares <= total_shares,
        amount <= shares_to_amount_spec(user_shares, total_value, total_shares),
    ensures
        amount <= total_value,
        amount_to_shares_spec(amount, total_value, total_shares) <= user_shares,
        amount_to_shares_spec(amount, total_value, total_shares) <= total_shares,
        total_shares - amount_to_shares_spec(amount, total_value, total_shares) <= total_value
            - amount,
        (total_value == amount) <==> (total_shares == amount_to_shares_spec(
            amount,
            total_value,
            total_shares,
        )),
{
    let v = total_value as int;
    let s = total_shares as int;
    let u = user_shares as int;
    let a = amount as int;
    if total_shares == 0 {
        assert(amount == 0);
    } else {
        let red = (u * v) / s;
        let m = (a * s) / v;
        // The redeemable value is bounded by the pool's total value.
        lemma_scale_down(v, u, s);
        lemma_mul_comm(u, v);
        assert(a <= v);
        // The burned shares stay within the user's holding.
        lemma_div_bounds(u * v, s);
        lemma_mul_mono(a, red, s);
        assert(a * s <= s * red);
        lemma_div_mono(a * s, u * v, v);
        lemma_div_exact(u, v);
        assert(m <= u);
        // ... and within the pool's share supply.
        lemma_scale_down(s, a, v);
        lemma_mul_comm(a, s);
        assert(m <= s);
        // Burning cannot push the share supply above the remaining value.
        lemma_div_bounds(a * s, v);
        assert(a + s <= v + m) by (nonlinear_arith)
            requires
                0 <= a,
                0 <= s,
                0 <= m,
                a <= v,
                s <= v,
                0 < v,
                a * s < v * m + v,
        ;
        // The value and the share supply reach zero together.
        if a == v {
            lemma_div_exact(s, v);
            lemma_mul_comm(v, s);
            assert(m == s);
        }
        if m == s {
            assert(v * s <= a * s);
            lemma_mul_inequality_converse(v, a, s);
            assert(a == v);
        }
    }
}

/// Redemption is superadditive: two holdings redeemed separately pay
/// no more, in total, than they would redeemed as one.
pub proof fn lemma_redeem_superadditive(a: nat, b: nat, total_value: nat, total_shares: nat)
    ensures
        shares_to_amount_spec(a, total_value, total_shares) + shares_to_amount_spec(
            b,
            total_value,
            total_shares,
        ) <= shares_to_amount_spec((a + b) as nat, total_value, total_shares),
{
    let v = total_value as int;
    let s = total_shares as int;
    if total_shares != 0 {
        let q1 = (a * v) / s;
        let q2 = (b * v) / s;
        lemma_div_bounds(a as int * v, s);
        lemma_div_bounds(b as int * v, s);
        vstd::arithmetic::mul::lemma_mul_is_distributive_add(s, q1, q2);
        vstd::arithmetic::mul::lemma_mul_is_distributive_add_other_way(v, a as int, b as int);
        lemma_mul_comm(q1 + q2, s);
        lemma_div_mono((q1 + q2) * s, (a + b) * v, s);
        lemma_div_exact(q1 + q2, s);
    }
}

/// Redemption is monotone in the shares redeemed.
pub proof fn lemma_redeem_monotone(a: nat, b: nat, total_value: nat, total_shares: nat)
    requires
        a <= b,
    ensures
        shares_to_amount_spec(a, total_value, total_shares) <= shares_to_amount_spec(
            b,
            total_value,
            total_shares,
        ),
{
    if total_shares != 0 {
        lemma_mul_mono(a as int, b as int, total_value as int);
        lemma_div_mono(a as int * total_value as int, b as int * total_value as int,
            total_shares as int);
    }
}

/// Redeeming a user's whole holding pays at least one unit per share,
/// at most the pool's total value, and drains the pool exactly when
/// the user held the whole share supply.
pub proof fn lemma_burn_all_bounds(total_value: nat, total_shares: nat, user_shares: nat)
    requires
        total_shares <= total_value,
        (total_shares == 0) <==> (total_value == 0),
        user_shares <= total_shares,
    ensures
        user_shares <= shares_to_amount_spec(user_shares, total_value, total_shares),
        shares_to_amount_spec(user_shares, total_value, total_shares) <= total_value,
        total_shares - user_shares <= total_value - shares_to_amount_spec(
            user_shares,
            total_value,
            total_shares,
        ),
        (total_value == shares_to_amount_spec(user_shares, total_value, total_shares)) <==> (
        total_shares == user_shares),
{
    let v = total_value as int;
    let s = total_shares as int;
    let u = user_shares as int;
    if total_shares == 0 {
    } else {
        let owed = (u * v) / s;
        // At least one unit per share: u * s <= u * v.
        lemma_mul_mono(s, v, u);
        lemma_mul_comm(u, s);
        lemma_mul_comm(u, v);
        lemma_div_mono(u * s, u * v, s);
        lemma_div_exact(u, s);
        assert(u <= owed);
        // At most the pool's total value.
        lemma_scale_down(v, u, s);
        assert(owed <= v);
        // The remaining value still covers the remaining shares.
        assert(u * v <= s * (u + v - s)) by (nonlinear_arith)
            requires
                0 <= u <= s,
                s <= v,
        ;
        lemma_div_mono(u * v, s * (u + v - s), s);
        lemma_div_exact(u + v - s, s);
        assert(owed <= u + v - s);
        // Draining the value and holding all shares coincide.
        if user_shares == total_shares {
            lemma_div_exact(v, s);
            lemma_mul_comm(s, v);
            assert(owed == v);
        }
        if owed == v {
            lemma_div_bounds(u * v, s);
            assert(s * v <= u * v);
            lemma_mul_comm(s, v);
            lemma_mul_comm(u, v);
            lemma_mul_inequality_converse(s, u, v);
            assert(u == s);
        }
    }
}

} // verus!
