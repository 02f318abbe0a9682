use exchange::ledger::Ledger;
use exchange::pallet::Pallet;
use exchange::types::{Error, Event, Order};

const ALICE: u64 = 1;
const BOB: u64 = 2;
const DOT: u128 = 1;
const BTC: u128 = 3;
const ENDOWED_AMOUNT: u128 = 1_000_000_000_000_000;

fn total(tokens: &Ledger, asset: u128, who: u64) -> u128 {
    tokens.free_balance(asset, who) + tokens.reserved_balance(asset, who)
}

fn new_test_ext() -> (Pallet, Ledger) {
    let mut ledger = Ledger::new();
    ledger.deposit(DOT, ALICE, ENDOWED_AMOUNT).unwrap();
    ledger.deposit(DOT, BOB, ENDOWED_AMOUNT).unwrap();
    ledger.deposit(BTC, ALICE, ENDOWED_AMOUNT).unwrap();
    ledger.deposit(BTC, BOB, ENDOWED_AMOUNT).unwrap();
    (Pallet::new(), ledger)
}

#[test]
fn test_submit_order() {
    let (mut exchange, mut tokens) = new_test_ext();

    //sell amount <= balance
    assert_eq!(exchange.submit_order(&mut tokens, ALICE, DOT, 10, BTC, 1), Ok(0));

    assert_eq!(tokens.free_balance(DOT, ALICE), ENDOWED_AMOUNT - 10);
    assert_eq!(tokens.free_balance(BTC, ALICE), ENDOWED_AMOUNT);

    assert_eq!(
        exchange.events.as_slice(),
        [Event::OrderCreated(
            0,
            Order {
                base_currency_id: DOT,
                base_amount: 10,
                target_currency_id: BTC,
                target_amount: 1,
                owner: ALICE
            }
        ),]
    );
}

#[test]
fn test_take_order() {
    let (mut exchange, mut tokens) = new_test_ext();

    //id not exist
    assert_eq!(exchange.take_order(&mut tokens, BOB, 0), Err(Error::InvalidOrderId));

    //id exist
    assert_eq!(exchange.submit_order(&mut tokens, ALICE, DOT, 10, BTC, 1), Ok(0));
    assert_eq!(tokens.free_balance(DOT, ALICE), ENDOWED_AMOUNT - 10);
    assert_eq!(tokens.free_balance(BTC, ALICE), ENDOWED_AMOUNT);

    assert_eq!(exchange.take_order(&mut tokens, BOB, 0), Ok(()));
    assert_eq!(tokens.free_balance(DOT, ALICE), ENDOWED_AMOUNT - 10);
    assert_eq!(tokens.free_balance(BTC, ALICE), ENDOWED_AMOUNT + 1);
    assert_eq!(tokens.free_balance(DOT, BOB), ENDOWED_AMOUNT + 10);
    assert_eq!(tokens.free_balance(BTC, BOB), ENDOWED_AMOUNT - 1);

    assert_eq!(
        exchange.events.as_slice(),
        [
            Event::OrderCreated(
                0,
                Order {
                    base_currency_id: DOT,
                    base_amount: 10,
                    target_currency_id: BTC,
                    target_amount: 1,
                    owner: ALICE
                }
            ),
            Event::OrderTaken(
                BOB,
                0,
                Order {
                    base_currency_id: DOT,
                    base_amount: 10,
                    target_currency_id: BTC,
                    target_amount: 1,
                    owner: ALICE
                }
            )
        ]
    );
}

#[test]
fn test_cancel_order() {
    let (mut exchange, mut tokens) = new_test_ext();

    //id not exist
    assert_eq!(exchange.cancel_order(&mut tokens, ALICE, 0), Err(Error::InvalidOrderId));

    //id exist, it is not owner
    assert_eq!(exchange.submit_order(&mut tokens, ALICE, DOT, 10, BTC, 1), Ok(0));

    assert_eq!(exchange.cancel_order(&mut tokens, BOB, 0), Err(Error::NotOwner));

    //id exist, is owner
    assert_eq!(exchange.cancel_order(&mut tokens, ALICE, 0), Ok(()));

    assert_eq!(
        exchange.events.as_slice(),
        [
            Event::OrderCreated(
                0,
                Order {
                    base_currency_id: DOT,
                    base_amount: 10,
                    target_currency_id: BTC,
                    target_amount: 1,
                    owner: ALICE
                }
            ),
            Event::OrderCancelled(0)
        ]
    );
}

#[test]
fn take_is_exactly_once() {
    let (mut exchange, mut tokens) = new_test_ext();

    assert_eq!(exchange.submit_order(&mut tokens, ALICE, DOT, 10, BTC, 1), Ok(0));
    assert_eq!(exchange.take_order(&mut tokens, BOB, 0), Ok(()));

    // a resolved identifier never again satisfies take or cancel
    assert_eq!(exchange.take_order(&mut tokens, BOB, 0), Err(Error::InvalidOrderId));
    assert_eq!(exchange.take_order(&mut tokens, ALICE, 0), Err(Error::InvalidOrderId));
    assert_eq!(exchange.cancel_order(&mut tokens, ALICE, 0), Err(Error::InvalidOrderId));
}

#[test]
fn cancel_restores_escrow() {
    let (mut exchange, mut tokens) = new_test_ext();

    assert_eq!(exchange.submit_order(&mut tokens, ALICE, DOT, 10, BTC, 1), Ok(0));
    assert_eq!(tokens.free_balance(DOT, ALICE), ENDOWED_AMOUNT - 10);
    assert_eq!(tokens.reserved_balance(DOT, ALICE), 10);

    assert_eq!(exchange.cancel_order(&mut tokens, ALICE, 0), Ok(()));

    // the owner's free balance is back at its pre-submission value and the
    // reservation is gone
    assert_eq!(tokens.free_balance(DOT, ALICE), ENDOWED_AMOUNT);
    assert_eq!(tokens.reserved_balance(DOT, ALICE), 0);

    // the resolved identifier never again satisfies take
    assert_eq!(exchange.take_order(&mut tokens, BOB, 0), Err(Error::InvalidOrderId));
}

#[test]
fn cancel_by_non_owner_keeps_escrow() {
    let (mut exchange, mut tokens) = new_test_ext();

    assert_eq!(exchange.submit_order(&mut tokens, ALICE, DOT, 10, BTC, 1), Ok(0));
    assert_eq!(exchange.cancel_order(&mut tokens, BOB, 0), Err(Error::NotOwner));

    // the order remains open and the owner's escrow untouched
    assert!(exchange.orders.get(0).is_some());
    assert_eq!(tokens.reserved_balance(DOT, ALICE), 10);
    assert_eq!(tokens.free_balance(DOT, ALICE), ENDOWED_AMOUNT - 10);
}

#[test]
fn take_with_insufficient_balance_is_atomic() {
    let mut tokens = Ledger::new();
    tokens.deposit(DOT, ALICE, 100).unwrap();
    // BOB holds no BTC at all, so the target-asset transfer must fail
    let mut exchange = Pallet::new();

    assert_eq!(exchange.submit_order(&mut tokens, ALICE, DOT, 10, BTC, 1), Ok(0));
    assert_eq!(exchange.take_order(&mut tokens, BOB, 0), Err(Error::InsufficientBalance));

    // no reservation was repatriated and the order remains open
    assert_eq!(tokens.reserved_balance(DOT, ALICE), 10);
    assert_eq!(tokens.free_balance(DOT, BOB), 0);
    assert!(exchange.orders.get(0).is_some());

    // still takeable once the taker is funded, and still cancellable
    tokens.deposit(BTC, BOB, 5).unwrap();
    assert_eq!(exchange.take_order(&mut tokens, BOB, 0), Ok(()));
    assert_eq!(tokens.free_balance(DOT, BOB), 10);
    assert_eq!(tokens.free_balance(BTC, ALICE), 1);
    assert_eq!(tokens.free_balance(BTC, BOB), 4);
    assert_eq!(tokens.reserved_balance(DOT, ALICE), 0);
}

#[test]
fn submit_with_insufficient_balance_changes_nothing() {
    let (mut exchange, mut tokens) = new_test_ext();

    assert_eq!(
        exchange.submit_order(&mut tokens, ALICE, DOT, ENDOWED_AMOUNT + 1, BTC, 1),
        Err(Error::InsufficientBalance)
    );

    assert_eq!(tokens.free_balance(DOT, ALICE), ENDOWED_AMOUNT);
    assert_eq!(tokens.reserved_balance(DOT, ALICE), 0);
    assert!(exchange.orders.get(0).is_none());
    assert_eq!(exchange.next_order_id, 0);
    assert!(exchange.events.is_empty());

    // the failed submission did not advance the counter: the next success
    // still receives identifier 0
    assert_eq!(exchange.submit_order(&mut tokens, ALICE, DOT, 10, BTC, 1), Ok(0));
}

#[test]
fn submit_order_id_overflow() {
    let (mut exchange, mut tokens) = new_test_ext();
    exchange.next_order_id = u32::MAX;

    assert_eq!(
        exchange.submit_order(&mut tokens, ALICE, DOT, 10, BTC, 1),
        Err(Error::OrderIdOverflow)
    );

    // no order created, no balance reserved, no counter mutation
    assert_eq!(exchange.next_order_id, u32::MAX);
    assert_eq!(tokens.free_balance(DOT, ALICE), ENDOWED_AMOUNT);
    assert_eq!(tokens.reserved_balance(DOT, ALICE), 0);
    assert!(exchange.events.is_empty());
}

#[test]
fn submitted_ids_strictly_increase() {
    let (mut exchange, mut tokens) = new_test_ext();

    assert_eq!(exchange.submit_order(&mut tokens, ALICE, DOT, 10, BTC, 1), Ok(0));
    assert_eq!(exchange.submit_order(&mut tokens, BOB, BTC, 2, DOT, 20), Ok(1));
    assert_eq!(exchange.cancel_order(&mut tokens, ALICE, 0), Ok(()));
    // a resolved identifier is never reused
    assert_eq!(exchange.submit_order(&mut tokens, ALICE, DOT, 10, BTC, 1), Ok(2));
}

#[test]
fn totals_are_conserved() {
    let (mut exchange, mut tokens) = new_test_ext();

    // a submission moves value only between free and reserved
    assert_eq!(exchange.submit_order(&mut tokens, ALICE, DOT, 10, BTC, 1), Ok(0));
    assert_eq!(total(&tokens, DOT, ALICE), ENDOWED_AMOUNT);
    assert_eq!(total(&tokens, BTC, ALICE), ENDOWED_AMOUNT);

    // a failed operation changes no balance at all
    assert_eq!(exchange.cancel_order(&mut tokens, BOB, 0), Err(Error::NotOwner));
    assert_eq!(total(&tokens, DOT, ALICE), ENDOWED_AMOUNT);
    assert_eq!(total(&tokens, DOT, BOB), ENDOWED_AMOUNT);

    // a settlement moves each amount from exactly one account to exactly one
    // other
    assert_eq!(exchange.take_order(&mut tokens, BOB, 0), Ok(()));
    assert_eq!(total(&tokens, DOT, ALICE), ENDOWED_AMOUNT - 10);
    assert_eq!(total(&tokens, DOT, BOB), ENDOWED_AMOUNT + 10);
    assert_eq!(total(&tokens, BTC, ALICE), ENDOWED_AMOUNT + 1);
    assert_eq!(total(&tokens, BTC, BOB), ENDOWED_AMOUNT - 1);
}

#[test]
fn owner_may_take_own_order() {
    let (mut exchange, mut tokens) = new_test_ext();

    assert_eq!(exchange.submit_order(&mut tokens, ALICE, DOT, 10, BTC, 1), Ok(0));
    // the self-payment is a no-op and the escrow comes home
    assert_eq!(exchange.take_order(&mut tokens, ALICE, 0), Ok(()));
    assert_eq!(tokens.free_balance(DOT, ALICE), ENDOWED_AMOUNT);
    assert_eq!(tokens.free_balance(BTC, ALICE), ENDOWED_AMOUNT);
    assert_eq!(tokens.reserved_balance(DOT, ALICE), 0);
    assert_eq!(exchange.take_order(&mut tokens, ALICE, 0), Err(Error::InvalidOrderId));
}
