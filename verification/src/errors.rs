use vstd::prelude::*;

verus! {

/// The user-recoverable failures of the lending operations.  Every
/// check is made before any mutation, so an operation that returns one
/// of these leaves the pool and user records exactly as they were.
#[derive(Clone, Copy, Debug, PartialEq, Eq, Structural)]
pub enum ErrorCode {
    /// A withdrawal asked for more than the caller's redeemable
    /// deposit value.
    InsufficientFunds,
    /// A borrow would push the caller's total debt above the
    /// loan-to-value limit on their collateral.
    OverBorrowableAmount,
    /// A repayment offered more than the outstanding debt.
    OverRepay,
    /// A liquidation was attempted on a healthy position.
    NotUnderCollateralized,
}

impl ErrorCode {
    /// A short description of the failure, for hosts that report errors
    /// as text.
    pub fn message(&self) -> &'static str {
        match self {
            ErrorCode::InsufficientFunds => "Insufficient funds",
            ErrorCode::OverBorrowableAmount => "Requested amount exceeds borrowable amount",
            ErrorCode::OverRepay => "The amount exceeds repayable amount",
            ErrorCode::NotUnderCollateralized => "Not under collateralized, cannot be liquidated",
        }
    }
}

} // verus!
