use exchange::ledger::Ledger;
use exchange::types::Error;

const ALICE: u64 = 1;
const BOB: u64 = 2;
const DOT: u128 = 1;

#[test]
fn deposit_credits_free_balance() {
    let mut ledger = Ledger::new();
    assert_eq!(ledger.free_balance(DOT, ALICE), 0);
    assert_eq!(ledger.deposit(DOT, ALICE, 100), Ok(()));
    assert_eq!(ledger.free_balance(DOT, ALICE), 100);
    assert_eq!(ledger.reserved_balance(DOT, ALICE), 0);
}

#[test]
fn deposit_overflow_is_rejected() {
    let mut ledger = Ledger::new();
    assert_eq!(ledger.deposit(DOT, ALICE, u128::MAX), Ok(()));
    assert_eq!(ledger.deposit(DOT, ALICE, 1), Err(Error::InsufficientBalance));
    assert_eq!(ledger.free_balance(DOT, ALICE), u128::MAX);
}

#[test]
fn reserve_moves_free_to_reserved() {
    let mut ledger = Ledger::new();
    ledger.deposit(DOT, ALICE, 100).unwrap();
    assert_eq!(ledger.reserve(DOT, ALICE, 30), Ok(()));
    assert_eq!(ledger.free_balance(DOT, ALICE), 70);
    assert_eq!(ledger.reserved_balance(DOT, ALICE), 30);
}

#[test]
fn reserve_beyond_free_balance_fails() {
    let mut ledger = Ledger::new();
    ledger.deposit(DOT, ALICE, 100).unwrap();
    assert_eq!(ledger.reserve(DOT, ALICE, 101), Err(Error::InsufficientBalance));
    assert_eq!(ledger.free_balance(DOT, ALICE), 100);
    assert_eq!(ledger.reserved_balance(DOT, ALICE), 0);
}

#[test]
fn unreserve_is_capped_by_the_reservation() {
    let mut ledger = Ledger::new();
    ledger.deposit(DOT, ALICE, 100).unwrap();
    ledger.reserve(DOT, ALICE, 30).unwrap();
    // asking for more than is reserved releases just the reservation
    ledger.unreserve(DOT, ALICE, 50);
    assert_eq!(ledger.free_balance(DOT, ALICE), 100);
    assert_eq!(ledger.reserved_balance(DOT, ALICE), 0);
}

#[test]
fn transfer_moves_between_accounts() {
    let mut ledger = Ledger::new();
    ledger.deposit(DOT, ALICE, 100).unwrap();
    assert_eq!(ledger.transfer(DOT, ALICE, BOB, 40), Ok(()));
    assert_eq!(ledger.free_balance(DOT, ALICE), 60);
    assert_eq!(ledger.free_balance(DOT, BOB), 40);
}

#[test]
fn transfer_beyond_free_balance_fails() {
    let mut ledger = Ledger::new();
    ledger.deposit(DOT, ALICE, 100).unwrap();
    ledger.reserve(DOT, ALICE, 80).unwrap();
    // the reserved part is not spendable
    assert_eq!(ledger.transfer(DOT, ALICE, BOB, 40), Err(Error::InsufficientBalance));
    assert_eq!(ledger.free_balance(DOT, ALICE), 20);
    assert_eq!(ledger.free_balance(DOT, BOB), 0);
}

#[test]
fn transfer_to_self_changes_nothing() {
    let mut ledger = Ledger::new();
    ledger.deposit(DOT, ALICE, 100).unwrap();
    assert_eq!(ledger.transfer(DOT, ALICE, ALICE, 40), Ok(()));
    assert_eq!(ledger.free_balance(DOT, ALICE), 100);
}

#[test]
fn repatriate_reports_the_uncovered_residual() {
    let mut ledger = Ledger::new();
    ledger.deposit(DOT, ALICE, 100).unwrap();
    ledger.reserve(DOT, ALICE, 5).unwrap();
    // only 5 of the requested 8 are reserved: the residual of 3 is reported
    assert_eq!(ledger.repatriate_reserved(DOT, ALICE, BOB, 8), Ok(3));
    assert_eq!(ledger.reserved_balance(DOT, ALICE), 0);
    assert_eq!(ledger.free_balance(DOT, BOB), 5);
}

#[test]
fn repatriate_fully_covered_has_zero_residual() {
    let mut ledger = Ledger::new();
    ledger.deposit(DOT, ALICE, 100).unwrap();
    ledger.reserve(DOT, ALICE, 50).unwrap();
    assert_eq!(ledger.repatriate_reserved(DOT, ALICE, BOB, 50), Ok(0));
    assert_eq!(ledger.free_balance(DOT, ALICE), 50);
    assert_eq!(ledger.reserved_balance(DOT, ALICE), 0);
    assert_eq!(ledger.free_balance(DOT, BOB), 50);
}
