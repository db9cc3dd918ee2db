//! End-to-end scenarios: deploy the ledger, then swap, deposit, harvest and
//! withdraw against it as a host would.

use unlocker::{Ledger, LedgerError, TokenId, Unlocker};

const OWNER: u64 = 1;
const ALICE: u64 = 2;
const BOB: u64 = 3;

fn from_token() -> TokenId {
    TokenId::new(b"LKMEX-123456".to_vec())
}

fn to_token() -> TokenId {
    TokenId::new(b"WEGLD-abc123".to_vec())
}

fn deploy(fee: u32) -> Ledger {
    Ledger::init(OWNER, from_token(), to_token(), fee).unwrap()
}

#[test]
fn unlocker_rs() {
    let ledger = deploy(500);
    assert_eq!(ledger.owner(), OWNER);
    assert_eq!(ledger.fee_percent(), 500);
    assert!(ledger.to_token().unwrap().same_id(&to_token()));
    assert_eq!(ledger.from_tokens().len(), 1);
    assert!(ledger.from_tokens()[0].same_id(&from_token()));
    assert_eq!(ledger.depositor_balance(ALICE), 0);
}

#[test]
fn unlocker_deploy_validations_rs() {
    // The fee must lie strictly inside (0, 10_000).
    assert_eq!(
        Ledger::init(OWNER, from_token(), to_token(), 0).err(),
        Some(LedgerError::ValidationError)
    );
    assert_eq!(
        Ledger::init(OWNER, from_token(), to_token(), 10_000).err(),
        Some(LedgerError::ValidationError)
    );
    assert_eq!(
        Ledger::init(OWNER, from_token(), to_token(), 10_500).err(),
        Some(LedgerError::ValidationError)
    );
    // Both asset identifiers must be well-formed.
    let bad = TokenId::new(b"bad".to_vec());
    assert_eq!(
        Ledger::init(OWNER, bad, to_token(), 500).err(),
        Some(LedgerError::ValidationError)
    );
    let bad = TokenId::new(b"lkmex-123456".to_vec());
    assert_eq!(
        Ledger::init(OWNER, from_token(), bad, 500).err(),
        Some(LedgerError::ValidationError)
    );
    assert!(Ledger::init(OWNER, from_token(), to_token(), 500).is_ok());
}

#[test]
fn unlocker_swap_rs() {
    // Fee 500 (5%), pool reserve 100_000: a swap of 10_000 pays 9_500.
    let ledger = deploy(500);
    assert_eq!(ledger.swap(ALICE, &from_token(), 10_000, 100_000), Ok(9_500));
    // Below the denominator the amount is too small.
    assert_eq!(
        ledger.swap(ALICE, &from_token(), 9_999, 100_000),
        Err(LedgerError::ValidationError)
    );
    // The zero identity may not swap.
    assert_eq!(
        ledger.swap(0, &from_token(), 10_000, 100_000),
        Err(LedgerError::AuthorizationError)
    );
    // Only supported input assets may be swapped in.
    assert_eq!(
        ledger.swap(ALICE, &to_token(), 10_000, 100_000),
        Err(LedgerError::StateError)
    );
    // The payout may not exceed the observed reserve.
    assert_eq!(
        ledger.swap(ALICE, &from_token(), 10_000, 9_499),
        Err(LedgerError::InsufficientFundsError)
    );
    assert_eq!(ledger.swap(ALICE, &from_token(), 10_000, 9_500), Ok(9_500));
}

#[test]
fn unlocker_withdraw_rs() {
    let mut ledger = deploy(500);
    assert_eq!(ledger.deposit(ALICE, &to_token(), 1_000), Ok(()));
    // Only the administrator may drain a reserve.
    assert_eq!(
        ledger.withdraw(ALICE, &from_token(), 0, 5_000),
        Err(LedgerError::AuthorizationError)
    );
    // The whole observed reserve goes out, depositor credits notwithstanding.
    assert_eq!(ledger.withdraw(OWNER, &from_token(), 0, 5_000), Ok(5_000));
    assert_eq!(ledger.depositor_balance(ALICE), 1_050);
}

#[test]
fn unlocker_deposit_rs() {
    // Fee 500: a deposit of 1_000 credits 1_000 + 50.
    let mut ledger = deploy(500);
    assert_eq!(ledger.deposit(ALICE, &to_token(), 1_000), Ok(()));
    assert_eq!(ledger.depositor_balance(ALICE), 1_050);
}

#[test]
fn unlocker_deposit_multi_rs() {
    let mut ledger = deploy(500);
    assert_eq!(ledger.deposit(ALICE, &to_token(), 1_000), Ok(()));
    assert_eq!(ledger.depositor_balance(ALICE), 1_050);
    // A second deposit accumulates; the credit never decreases.
    assert_eq!(ledger.deposit(ALICE, &to_token(), 2_000), Ok(()));
    assert_eq!(ledger.depositor_balance(ALICE), 3_150);
    // Depositors are kept apart.
    assert_eq!(ledger.deposit(BOB, &to_token(), 1_000), Ok(()));
    assert_eq!(ledger.depositor_balance(BOB), 1_050);
    assert_eq!(ledger.depositor_balance(ALICE), 3_150);
}

#[test]
fn unlocker_balances_rs() {
    let mut ledger = deploy(500);
    // An account that never deposited holds zero.
    assert_eq!(ledger.depositor_balance(ALICE), 0);
    assert_eq!(ledger.depositor_balance(OWNER), 0);
    // Rejected operations change no balance.
    assert_eq!(
        ledger.deposit(ALICE, &to_token(), 999),
        Err(LedgerError::ValidationError)
    );
    assert_eq!(ledger.depositor_balance(ALICE), 0);
    // Accepted operations change exactly the caller's balance.
    assert_eq!(ledger.deposit(ALICE, &to_token(), 1_000), Ok(()));
    assert_eq!(ledger.depositor_balance(ALICE), 1_050);
    assert_eq!(ledger.depositor_balance(BOB), 0);
}

#[test]
fn unlocker_harvest_rs() {
    let mut ledger = deploy(500);
    assert_eq!(ledger.deposit(ALICE, &to_token(), 1_000), Ok(()));
    assert_eq!(ledger.depositor_balance(ALICE), 1_050);
    // A harvest above the credited balance is rejected and changes nothing.
    assert_eq!(
        ledger.harvest(ALICE, &from_token(), 0, 2_000, 100_000),
        Err(LedgerError::InsufficientFundsError)
    );
    assert_eq!(ledger.depositor_balance(ALICE), 1_050);
    // A harvest above the pool reserve is rejected too.
    assert_eq!(
        ledger.harvest(ALICE, &from_token(), 0, 1_000, 999),
        Err(LedgerError::InsufficientFundsError)
    );
    assert_eq!(ledger.depositor_balance(ALICE), 1_050);
    // A covered harvest debits exactly the amount paid out.
    assert_eq!(ledger.harvest(ALICE, &from_token(), 0, 1_000, 100_000), Ok(()));
    assert_eq!(ledger.depositor_balance(ALICE), 50);
}
