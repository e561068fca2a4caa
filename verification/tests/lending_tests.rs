use lending_core::accrual::{accrue_balance, accrue_interest};
use lending_core::errors::ErrorCode;
use lending_core::liquidation::liquidate;
use lending_core::ops::{borrow, deposit, repay, withdraw};
use lending_core::pool::{find_pool, register_pool, Pool};
use lending_core::shares::{amount_to_shares, shares_to_amount};
use lending_core::user::{sync_positions, UserPosition};
use lending_core::valuation::{collateral_value, debt_value};

fn new_pool(asset_id: u64, rate: u64, ltv: u64, threshold: u64, bonus: u64) -> Pool {
    Pool::new(asset_id, rate, ltv, threshold, bonus, 0)
}

#[test]
fn shares_bootstrap_one_to_one() {
    assert_eq!(amount_to_shares(100, 0, 0), 100);
    assert_eq!(amount_to_shares(1, 0, 0), 1);
}

#[test]
fn shares_proportional_after_growth() {
    // 100 of value against 200 total backing 100 shares buys 50 shares.
    assert_eq!(amount_to_shares(100, 200, 100), 50);
    // Rounding is always down.
    assert_eq!(amount_to_shares(99, 200, 100), 49);
}

#[test]
fn shares_redeem_proportionally() {
    assert_eq!(shares_to_amount(500, 1100, 1000), 550);
    assert_eq!(shares_to_amount(0, 1100, 1000), 0);
    assert_eq!(shares_to_amount(1000, 1100, 1000), 1100);
    // Empty pool redeems nothing.
    assert_eq!(shares_to_amount(0, 0, 0), 0);
}

#[test]
fn accrual_compounds_per_period() {
    // 10% over one period: 1000 -> 1100.
    assert_eq!(accrue_balance(1000, 10, 1), 1100);
    // Two periods compound: 1100 * 110 / 100 = 1210.
    assert_eq!(accrue_balance(1000, 10, 2), 1210);
    // No elapsed time, no change; zero rate, no change.
    assert_eq!(accrue_balance(1000, 10, 0), 1000);
    assert_eq!(accrue_balance(1000, 0, 5), 1000);
    // Rounding is down each step: 999 * 110 / 100 = 1098.
    assert_eq!(accrue_balance(999, 10, 1), 1098);
}

#[test]
fn accrue_interest_advances_pool() {
    let mut pool = new_pool(7, 10, 8000, 8500, 500);
    let mut user = UserPosition::new(0);
    let registry = vec![pool];
    sync_positions(&mut user, &registry);
    deposit(&mut pool, &mut user, 0, 1000, 0);
    accrue_interest(&mut pool, 1);
    assert_eq!(pool.total_deposits, 1100);
    assert_eq!(pool.total_deposit_shares, 1000);
    assert_eq!(pool.last_accrual_time, 1);
    // Idempotent within the same instant.
    accrue_interest(&mut pool, 1);
    assert_eq!(pool.total_deposits, 1100);
}

#[test]
fn deposit_bootstrap_then_proportional() {
    // First user deposits 100 into an empty pool: 100 shares, 1:1.
    let mut pool = new_pool(1, 0, 8000, 8500, 500);
    let mut first = UserPosition::new(0);
    let registry = vec![pool];
    sync_positions(&mut first, &registry);
    deposit(&mut pool, &mut first, 0, 100, 0);
    assert_eq!(pool.total_deposits, 100);
    assert_eq!(pool.total_deposit_shares, 100);
    assert_eq!(first.positions[0].deposited_shares, 100);
    assert_eq!(first.positions[0].deposited_amount, 100);

    // After growth to 200 backing the same 100 shares, a second user
    // depositing 100 receives 50 shares.
    pool.total_deposits = 200;
    let mut second = UserPosition::new(0);
    sync_positions(&mut second, &registry);
    deposit(&mut pool, &mut second, 0, 100, 0);
    assert_eq!(second.positions[0].deposited_shares, 50);
    assert_eq!(pool.total_deposits, 300);
    assert_eq!(pool.total_deposit_shares, 150);
}

#[test]
fn withdraw_up_to_accrued_value() {
    // Two users bootstrap 1000 deposits / 1000 shares at 10%; after
    // one period the pool holds 1100, so 500 shares redeem 550.
    let mut pool = new_pool(1, 10, 8000, 8500, 500);
    let registry = vec![pool];
    let mut alice = UserPosition::new(0);
    let mut bob = UserPosition::new(0);
    sync_positions(&mut alice, &registry);
    sync_positions(&mut bob, &registry);
    deposit(&mut pool, &mut alice, 0, 500, 0);
    deposit(&mut pool, &mut bob, 0, 500, 0);
    assert_eq!(pool.total_deposits, 1000);
    assert_eq!(pool.total_deposit_shares, 1000);

    // One unit above the redeemable value is refused...
    let refused = withdraw(&mut pool, &mut alice, 0, 551, 1);
    assert_eq!(refused, Err(ErrorCode::InsufficientFunds));
    // ... and refusal leaves every balance unchanged.
    assert_eq!(pool.total_deposits, 1000);
    assert_eq!(pool.total_deposit_shares, 1000);
    assert_eq!(pool.last_accrual_time, 0);
    assert_eq!(alice.positions[0].deposited_shares, 500);
    assert_eq!(alice.positions[0].deposited_amount, 500);

    // The full redeemable value goes through.
    let granted = withdraw(&mut pool, &mut alice, 0, 550, 1);
    assert_eq!(granted, Ok(()));
    assert_eq!(pool.total_deposits, 550);
    assert_eq!(pool.total_deposit_shares, 500);
    assert_eq!(alice.positions[0].deposited_shares, 0);
    assert_eq!(alice.positions[0].deposited_amount, 0);
    // Bob's 500 shares still redeem their 550.
    assert_eq!(shares_to_amount(500, pool.total_deposits, pool.total_deposit_shares), 550);
}

#[test]
fn withdraw_interest_beyond_recorded_principal() {
    // A sole depositor's value outgrows their recorded principal;
    // withdrawing more than the principal clamps the record at zero.
    let mut pool = new_pool(1, 10, 8000, 8500, 500);
    let registry = vec![pool];
    let mut alice = UserPosition::new(0);
    sync_positions(&mut alice, &registry);
    deposit(&mut pool, &mut alice, 0, 500, 0);
    // After one period 500 shares redeem 550; withdraw 540 of it.
    assert_eq!(withdraw(&mut pool, &mut alice, 0, 540, 1), Ok(()));
    assert_eq!(alice.positions[0].deposited_amount, 0);
    // 540 * 500 / 550 shares burned, rounded down.
    assert_eq!(alice.positions[0].deposited_shares, 500 - 490);
    assert_eq!(pool.total_deposits, 10);
    assert_eq!(pool.total_deposit_shares, 10);
}

#[test]
fn share_conservation_across_users() {
    let mut pool = new_pool(1, 7, 8000, 8500, 500);
    let registry = vec![pool];
    let mut alice = UserPosition::new(0);
    let mut bob = UserPosition::new(0);
    sync_positions(&mut alice, &registry);
    sync_positions(&mut bob, &registry);
    deposit(&mut pool, &mut alice, 0, 321, 0);
    deposit(&mut pool, &mut bob, 0, 987, 1);
    deposit(&mut pool, &mut alice, 0, 55, 2);
    assert!(withdraw(&mut pool, &mut bob, 0, 100, 3).is_ok());
    let held = alice.positions[0].deposited_shares + bob.positions[0].deposited_shares;
    assert_eq!(held, pool.total_deposit_shares);
}

#[test]
fn deposit_rate_never_falls() {
    let mut pool = new_pool(1, 13, 8000, 8500, 500);
    let registry = vec![pool];
    let mut user = UserPosition::new(0);
    sync_positions(&mut user, &registry);
    let mut now: u64 = 0;
    let mut last_deposits: u128 = 0;
    let mut last_shares: u128 = 0;
    for amount in [500u64, 77, 1300, 9] {
        deposit(&mut pool, &mut user, 0, amount, now);
        let deposits = pool.total_deposits as u128;
        let shares = pool.total_deposit_shares as u128;
        // Cross-multiplied: deposits / shares never falls.
        assert!(deposits * last_shares >= last_deposits * shares);
        last_deposits = deposits;
        last_shares = shares;
        now += 1;
    }
}

#[test]
fn borrow_within_loan_to_value() {
    let mut pools = vec![
        new_pool(1, 0, 8000, 8500, 500),
        new_pool(2, 0, 8000, 8500, 500),
    ];
    let mut lender = UserPosition::new(0);
    let mut borrower = UserPosition::new(0);
    sync_positions(&mut lender, &pools);
    sync_positions(&mut borrower, &pools);
    deposit(&mut pools[1], &mut lender, 1, 1000, 0);
    deposit(&mut pools[0], &mut borrower, 0, 1000, 0);

    // 801 would breach 80% loan-to-value of the 1000 collateral.
    let refused = borrow(&mut pools, &mut borrower, 1, 801, 0);
    assert_eq!(refused, Err(ErrorCode::OverBorrowableAmount));
    assert_eq!(pools[1].total_borrowed, 0);
    assert_eq!(borrower.positions[1].borrowed_amount, 0);

    // 800 is exactly at the limit.
    let granted = borrow(&mut pools, &mut borrower, 1, 800, 0);
    assert_eq!(granted, Ok(()));
    assert_eq!(pools[1].total_borrowed, 800);
    assert_eq!(pools[1].total_borrow_shares, 800);
    assert_eq!(borrower.positions[1].borrowed_amount, 800);
    assert_eq!(borrower.positions[1].borrowed_shares, 800);

    // Existing debt counts: even one more unit is now refused.
    let again = borrow(&mut pools, &mut borrower, 1, 1, 0);
    assert_eq!(again, Err(ErrorCode::OverBorrowableAmount));
}

#[test]
fn repay_caps_at_outstanding_debt() {
    let mut pools = vec![
        new_pool(1, 0, 8000, 8500, 500),
        new_pool(2, 10, 8000, 8500, 500),
    ];
    let mut lender = UserPosition::new(0);
    let mut borrower = UserPosition::new(0);
    sync_positions(&mut lender, &pools);
    sync_positions(&mut borrower, &pools);
    deposit(&mut pools[1], &mut lender, 1, 1000, 0);
    deposit(&mut pools[0], &mut borrower, 0, 1000, 0);
    assert!(borrow(&mut pools, &mut borrower, 1, 500, 0).is_ok());

    // After one period at 10% the debt is worth 550.
    let over = repay(&mut pools[1], &mut borrower, 1, 551, 1);
    assert_eq!(over, Err(ErrorCode::OverRepay));
    assert_eq!(pools[1].total_borrowed, 500);
    assert_eq!(borrower.positions[1].borrowed_shares, 500);

    // Repaying exactly the outstanding value zeroes amount and shares.
    let settled = repay(&mut pools[1], &mut borrower, 1, 550, 1);
    assert_eq!(settled, Ok(()));
    assert_eq!(borrower.positions[1].borrowed_shares, 0);
    assert_eq!(borrower.positions[1].borrowed_amount, 0);
    assert_eq!(pools[1].total_borrowed, 0);
    assert_eq!(pools[1].total_borrow_shares, 0);
}

#[test]
fn repay_partial_keeps_remainder() {
    let mut pools = vec![
        new_pool(1, 0, 8000, 8500, 500),
        new_pool(2, 0, 8000, 8500, 500),
    ];
    let mut lender = UserPosition::new(0);
    let mut borrower = UserPosition::new(0);
    sync_positions(&mut lender, &pools);
    sync_positions(&mut borrower, &pools);
    deposit(&mut pools[1], &mut lender, 1, 1000, 0);
    deposit(&mut pools[0], &mut borrower, 0, 1000, 0);
    assert!(borrow(&mut pools, &mut borrower, 1, 500, 0).is_ok());

    assert_eq!(repay(&mut pools[1], &mut borrower, 1, 200, 0), Ok(()));
    assert_eq!(pools[1].total_borrowed, 300);
    assert_eq!(pools[1].total_borrow_shares, 300);
    assert_eq!(borrower.positions[1].borrowed_amount, 300);
    assert_eq!(borrower.positions[1].borrowed_shares, 300);
}

#[test]
fn liquidation_needs_undercollateralization() {
    let mut pools = vec![
        new_pool(1, 0, 8000, 8000, 1000),
        new_pool(2, 0, 8000, 8500, 500),
    ];
    let mut lender = UserPosition::new(0);
    let mut borrower = UserPosition::new(0);
    sync_positions(&mut lender, &pools);
    sync_positions(&mut borrower, &pools);
    deposit(&mut pools[1], &mut lender, 1, 1000, 0);
    deposit(&mut pools[0], &mut borrower, 0, 1000, 0);
    assert!(borrow(&mut pools, &mut borrower, 1, 700, 0).is_ok());

    // Debt 700 against collateral 1000 at an 80% threshold is healthy.
    let refused = liquidate(&mut pools, &mut borrower, 1, 0, 350, 0);
    assert_eq!(refused, Err(ErrorCode::NotUnderCollateralized));
    assert_eq!(pools[1].total_borrowed, 700);
    assert_eq!(borrower.positions[0].deposited_shares, 1000);
}

#[test]
fn liquidation_seizes_discounted_collateral() {
    // Collateral pool: no interest, 10% liquidation bonus, 80%
    // threshold.  Debt pool: 100% interest per period.
    let mut pools = vec![
        new_pool(1, 0, 8000, 8000, 1000),
        new_pool(2, 100, 8000, 8500, 500),
    ];
    let mut lender = UserPosition::new(0);
    let mut borrower = UserPosition::new(0);
    sync_positions(&mut lender, &pools);
    sync_positions(&mut borrower, &pools);
    deposit(&mut pools[1], &mut lender, 1, 1000, 0);
    deposit(&mut pools[0], &mut borrower, 0, 1000, 0);
    assert!(borrow(&mut pools, &mut borrower, 1, 700, 0).is_ok());

    // One period later the debt doubled to 1400 > 1000 * 80%.
    let outcome = liquidate(&mut pools, &mut borrower, 1, 0, 10_000, 1);
    // The close factor caps the repayment at half the 1400 owed; the
    // liquidator receives 700 * 110% = 770 of collateral.
    assert_eq!(outcome, Ok((700, 770)));
    assert_eq!(pools[1].total_borrowed, 700);
    assert_eq!(pools[1].total_borrow_shares, 350);
    assert_eq!(borrower.positions[1].borrowed_shares, 350);
    assert_eq!(borrower.positions[1].borrowed_amount, 0);
    assert_eq!(pools[0].total_deposits, 230);
    assert_eq!(pools[0].total_deposit_shares, 230);
    assert_eq!(borrower.positions[0].deposited_shares, 230);
    assert_eq!(borrower.positions[0].deposited_amount, 230);
}

#[test]
fn liquidation_respects_liquidator_offer() {
    let mut pools = vec![
        new_pool(1, 0, 8000, 8000, 1000),
        new_pool(2, 100, 8000, 8500, 500),
    ];
    let mut lender = UserPosition::new(0);
    let mut borrower = UserPosition::new(0);
    sync_positions(&mut lender, &pools);
    sync_positions(&mut borrower, &pools);
    deposit(&mut pools[1], &mut lender, 1, 1000, 0);
    deposit(&mut pools[0], &mut borrower, 0, 1000, 0);
    assert!(borrow(&mut pools, &mut borrower, 1, 700, 0).is_ok());

    // Offering less than the close-factor cap repays the offer.
    let outcome = liquidate(&mut pools, &mut borrower, 1, 0, 100, 1);
    assert_eq!(outcome, Ok((100, 110)));
}

#[test]
fn valuation_sums_accrued_positions() {
    let mut pools = vec![
        new_pool(1, 0, 8000, 8500, 500),
        new_pool(2, 10, 8000, 8500, 500),
    ];
    let mut lender = UserPosition::new(0);
    let mut borrower = UserPosition::new(0);
    sync_positions(&mut lender, &pools);
    sync_positions(&mut borrower, &pools);
    deposit(&mut pools[1], &mut lender, 1, 1000, 0);
    deposit(&mut pools[0], &mut borrower, 0, 1000, 0);
    assert!(borrow(&mut pools, &mut borrower, 1, 500, 0).is_ok());

    // At the next period the rate-free collateral is still 1000 while
    // the debt grew by 10%.
    assert_eq!(collateral_value(&pools, &borrower, 1), 1000);
    assert_eq!(debt_value(&pools, &borrower, 1), 550);
    // The lender's deposit in the interest-bearing pool also grew.
    assert_eq!(collateral_value(&pools, &lender, 1), 1100);
    assert_eq!(debt_value(&pools, &lender, 1), 0);
}

#[test]
fn registry_registers_each_asset_once() {
    let mut pools: Vec<Pool> = Vec::new();
    register_pool(&mut pools, new_pool(10, 5, 8000, 8500, 500));
    register_pool(&mut pools, new_pool(20, 5, 8000, 8500, 500));
    assert_eq!(find_pool(&pools, 10), Some(0));
    assert_eq!(find_pool(&pools, 20), Some(1));
    assert_eq!(find_pool(&pools, 30), None);
}

#[test]
fn sync_positions_tracks_registry() {
    let mut pools: Vec<Pool> = Vec::new();
    register_pool(&mut pools, new_pool(10, 5, 8000, 8500, 500));
    let mut user = UserPosition::new(4);
    sync_positions(&mut user, &pools);
    assert_eq!(user.positions.len(), 1);
    assert_eq!(user.positions[0].asset_id, 10);
    assert_eq!(user.positions[0].deposited_shares, 0);
    register_pool(&mut pools, new_pool(20, 5, 8000, 8500, 500));
    sync_positions(&mut user, &pools);
    assert_eq!(user.positions.len(), 2);
    assert_eq!(user.positions[1].asset_id, 20);
    assert_eq!(user.last_accrual_time, 4);
}

#[test]
fn error_messages_name_the_failure() {
    assert_eq!(ErrorCode::InsufficientFunds.message(), "Insufficient funds");
    assert_eq!(
        ErrorCode::OverBorrowableAmount.message(),
        "Requested amount exceeds borrowable amount"
    );
    assert_eq!(ErrorCode::OverRepay.message(), "The amount exceeds repayable amount");
    assert_eq!(
        ErrorCode::NotUnderCollateralized.message(),
        "Not under collateralized, cannot be liquidated"
    );
}
