//! A minimal liquidity-bridge ledger.
//!
//! The ledger accepts deposits of a designated output asset, tracks each
//! depositor's redeemable credit, accepts swaps of supported input assets for
//! the output asset minus a basis-point fee, and lets depositors withdraw
//! their credited balance. All accounting decisions are verified; moving the
//! actual funds is the host's job and stays outside this crate.

pub mod ledger;
pub mod token;

pub use ledger::{Ledger, LedgerError, LedgerView, Unlocker, MINIMUM_DEPOSIT, PERCENTAGE_TOTAL};
pub use token::TokenId;
