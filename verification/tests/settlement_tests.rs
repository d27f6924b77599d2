use nft_marketplace::address::Address;
use nft_marketplace::address::CallStackElement;
use nft_marketplace::detail::call_stack_element_to_address;
use nft_marketplace::detail::get_caller_address;
use nft_marketplace::detail::get_immediate_caller_address;
use nft_marketplace::error::Error;
use nft_marketplace::event::Event;
use nft_marketplace::ledger::Ledger;
use nft_marketplace::marketplace::Marketplace;
use nft_marketplace::registry::Registry;

const DEFAULT_ACCOUNT: u64 = 100;
const PACKAGE: u64 = 500;
const COLLECTION: u64 = 1;
const TOKEN_PRICE: u128 = 1_000_000_000_000;
const STARTING_BALANCE: u128 = 30_000_000_000_000;

fn setup() -> (Marketplace, Registry, Ledger) {
    let marketplace = Marketplace::new(PACKAGE, DEFAULT_ACCOUNT);
    let registry = Registry::new();
    let mut ledger = Ledger::new();
    ledger.fund_account(DEFAULT_ACCOUNT, STARTING_BALANCE).unwrap();
    for account in 0..10u64 {
        ledger.fund_account(account, STARTING_BALANCE).unwrap();
    }
    (marketplace, registry, ledger)
}

fn escrow_deposit(ledger: &mut Ledger, amount: u128) {
    ledger.deposit(DEFAULT_ACCOUNT, amount).unwrap();
}

#[test]
fn fee_split_pays_exact_shares() {
    // 1000 at 25 parts per 1000: 975 + 25 = 1000, nothing lost.
    let (mut marketplace, _registry, mut ledger) = setup();
    marketplace.set_treasury_wallet(7);
    escrow_deposit(&mut ledger, 1000);
    marketplace.checked_balance(&ledger, 1000).unwrap();
    marketplace.transfer_with_fee(&mut ledger, 3, 1000).unwrap();
    assert_eq!(ledger.balance_of(3), STARTING_BALANCE + 975);
    assert_eq!(ledger.balance_of(7), STARTING_BALANCE + 25);
    assert_eq!(ledger.escrow, 0);
    assert_eq!(marketplace.purse_balance, 0);
}

#[test]
fn fee_split_loses_truncation_remainder() {
    // 7 at 25 parts per 1000: 6 + 0 = 6; one unit stays in the purse.
    let (mut marketplace, _registry, mut ledger) = setup();
    marketplace.set_treasury_wallet(7);
    escrow_deposit(&mut ledger, 7);
    marketplace.checked_balance(&ledger, 7).unwrap();
    marketplace.transfer_with_fee(&mut ledger, 3, 7).unwrap();
    assert_eq!(ledger.balance_of(3), STARTING_BALANCE + 6);
    assert_eq!(ledger.balance_of(7), STARTING_BALANCE);
    assert_eq!(ledger.escrow, 1);
}

#[test]
fn fee_above_denominator_overflows() {
    let (mut marketplace, _registry, mut ledger) = setup();
    marketplace.set_fee(1001);
    escrow_deposit(&mut ledger, 1000);
    assert_eq!(
        marketplace.transfer_with_fee(&mut ledger, 3, 1000),
        Err(Error::Overflow)
    );
}

#[test]
fn buy_order_happy_path_settles_everyone() {
    // List at price P, deposit exactly P, buy: the token moves to the
    // buyer, the maker receives P minus the fee share, the treasury
    // receives the fee share, and the order goes inactive.
    let (mut marketplace, mut registry, mut ledger) = setup();
    marketplace.set_treasury_wallet(1);
    registry.mint(Address::Account(DEFAULT_ACCOUNT), COLLECTION, 0).unwrap();
    registry
        .approve(
            Address::Account(DEFAULT_ACCOUNT),
            COLLECTION,
            0,
            Address::ContractPackage(PACKAGE),
        )
        .unwrap();
    marketplace
        .create_order(&mut registry, DEFAULT_ACCOUNT, COLLECTION, 0, TOKEN_PRICE)
        .unwrap();
    escrow_deposit(&mut ledger, TOKEN_PRICE);
    marketplace
        .buy_order(&mut registry, &mut ledger, DEFAULT_ACCOUNT, COLLECTION, 0, TOKEN_PRICE)
        .unwrap();
    assert_eq!(
        registry.owner_of(COLLECTION, 0),
        Some(Address::Account(DEFAULT_ACCOUNT))
    );
    // 30e12 - 1e12 deposited + floor(1e12 * 975 / 1000) received back.
    assert_eq!(ledger.balance_of(DEFAULT_ACCOUNT), 29_975_000_000_000);
    assert_eq!(ledger.balance_of(1), STARTING_BALANCE + 25_000_000_000);
    assert_eq!(ledger.escrow, 0);
    assert_eq!(marketplace.orders[0].is_active, false);
}

#[test]
fn unfunded_buy_order_is_denied_and_changes_nothing() {
    let (mut marketplace, mut registry, mut ledger) = setup();
    registry.mint(Address::Account(DEFAULT_ACCOUNT), COLLECTION, 0).unwrap();
    registry
        .approve(
            Address::Account(DEFAULT_ACCOUNT),
            COLLECTION,
            0,
            Address::ContractPackage(PACKAGE),
        )
        .unwrap();
    marketplace
        .create_order(&mut registry, DEFAULT_ACCOUNT, COLLECTION, 0, TOKEN_PRICE)
        .unwrap();
    let events_before = marketplace.events.len();
    assert_eq!(
        marketplace.buy_order(
            &mut registry,
            &mut ledger,
            DEFAULT_ACCOUNT,
            COLLECTION,
            0,
            TOKEN_PRICE,
        ),
        Err(Error::PermissionDenied)
    );
    assert_eq!(marketplace.orders[0].is_active, true);
    assert_eq!(marketplace.events.len(), events_before);
    assert_eq!(ledger.balance_of(DEFAULT_ACCOUNT), STARTING_BALANCE);
    assert_eq!(ledger.escrow, 0);
    assert_eq!(
        registry.owner_of(COLLECTION, 0),
        Some(Address::ContractPackage(PACKAGE))
    );
}

#[test]
fn unfunded_create_offer_is_denied_and_changes_nothing() {
    let (mut marketplace, _registry, ledger) = setup();
    assert_eq!(
        marketplace.create_offer(&ledger, 2, COLLECTION, 0, 5, 0),
        Err(Error::PermissionDenied)
    );
    assert!(marketplace.offers.is_empty());
    assert!(marketplace.events.is_empty());
    assert!(marketplace.result.is_none());
}

#[test]
fn checked_balance_accepts_exact_deposit_only() {
    let (mut marketplace, _registry, mut ledger) = setup();
    escrow_deposit(&mut ledger, 40);
    assert_eq!(marketplace.checked_balance(&ledger, 39), Err(Error::PermissionDenied));
    assert_eq!(marketplace.checked_balance(&ledger, 41), Err(Error::PermissionDenied));
    assert_eq!(marketplace.checked_balance(&ledger, 40), Ok(40));
    assert_eq!(marketplace.purse_balance, 40);
}

#[test]
fn set_fee_records_event() {
    let (mut marketplace, _registry, _ledger) = setup();
    marketplace.set_fee(30);
    assert_eq!(marketplace.fee, 30);
    assert_eq!(marketplace.events.last(), Some(&Event::FeeChanged { fee: 30 }));
}

#[test]
fn transfer_beyond_escrow_fails() {
    let (mut marketplace, _registry, mut ledger) = setup();
    escrow_deposit(&mut ledger, 10);
    assert_eq!(
        marketplace.transfer(&mut ledger, 3, 11),
        Err(Error::InsufficientBalance)
    );
    assert_eq!(ledger.escrow, 10);
}

#[test]
fn deposit_beyond_balance_fails() {
    let (_marketplace, _registry, mut ledger) = setup();
    assert_eq!(
        ledger.deposit(3, STARTING_BALANCE + 1),
        Err(Error::InsufficientBalance)
    );
    assert_eq!(ledger.balance_of(3), STARTING_BALANCE);
    assert_eq!(ledger.escrow, 0);
}

#[test]
fn funding_beyond_capacity_overflows() {
    let mut ledger = Ledger::new();
    ledger.fund_account(3, u128::MAX).unwrap();
    assert_eq!(ledger.fund_account(3, 1), Err(Error::Overflow));
}

#[test]
fn refund_beyond_capacity_overflows() {
    let (mut marketplace, _registry, mut ledger) = setup();
    ledger.fund_account(11, u128::MAX - 5).unwrap();
    escrow_deposit(&mut ledger, 10);
    assert_eq!(marketplace.transfer(&mut ledger, 11, 6), Err(Error::Overflow));
    assert_eq!(marketplace.transfer(&mut ledger, 11, 5), Ok(()));
    assert_eq!(ledger.balance_of(11), u128::MAX);
}

#[test]
fn call_stack_elements_resolve_to_addresses() {
    assert_eq!(
        call_stack_element_to_address(&CallStackElement::Session { account: 5 }),
        Address::Account(5)
    );
    assert_eq!(
        call_stack_element_to_address(&CallStackElement::StoredSession {
            account: 5,
            contract_package: 8,
            contract: 9,
        }),
        Address::Account(5)
    );
    assert_eq!(
        call_stack_element_to_address(&CallStackElement::StoredContract {
            contract_package: 8,
            contract: 9,
        }),
        Address::ContractPackage(8)
    );
}

#[test]
fn immediate_caller_is_second_frame_from_top() {
    let stack = vec![
        CallStackElement::Session { account: 5 },
        CallStackElement::StoredContract { contract_package: 8, contract: 9 },
    ];
    assert_eq!(get_immediate_caller_address(&stack), Ok(Address::Account(5)));
    assert_eq!(
        get_caller_address(&stack),
        Ok(Address::ContractPackage(8))
    );
}

#[test]
fn short_call_stacks_are_invalid_context() {
    let one = vec![CallStackElement::Session { account: 5 }];
    let empty: Vec<CallStackElement> = Vec::new();
    assert_eq!(get_immediate_caller_address(&one), Err(Error::InvalidContext));
    assert_eq!(get_caller_address(&empty), Err(Error::InvalidContext));
    assert_eq!(get_immediate_caller_address(&empty), Err(Error::InvalidContext));
}
