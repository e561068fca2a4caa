//! Accounting core of a collateralized lending pool.
//!
//! The library tracks per-asset pools of deposited and borrowed value,
//! accrues interest by per-period compounding on scaled integers,
//! represents ownership of a pool as fungible shares, and gates
//! borrowing and liquidation on collateralization ratios.  All balances
//! are unsigned integers; amounts across pools are expressed in a
//! common value unit supplied by the caller's price oracle.  Token
//! custody, signatures, clocks and storage are external collaborators:
//! every operation here takes the pool and user records it works on,
//! checks its conditions, and either mutates them together or leaves
//! them untouched.

pub mod accrual;
pub mod errors;
pub mod laws;
pub mod liquidation;
pub mod math;
pub mod ops;
pub mod pool;
pub mod shares;
pub mod user;
pub mod valuation;
