use nft_marketplace::address::Address;
use nft_marketplace::error::Error;
use nft_marketplace::event::Event;
use nft_marketplace::ledger::Ledger;
use nft_marketplace::marketplace::Marketplace;
use nft_marketplace::marketplace::StoredResult;
use nft_marketplace::registry::Registry;

const DEFAULT_ACCOUNT: u64 = 100;
const PACKAGE: u64 = 500;
const COLLECTION: u64 = 1;
const TOKEN_PRICE: u128 = 1_000_000_000_000;
const STARTING_BALANCE: u128 = 30_000_000_000_000;

fn setup() -> (Marketplace, Registry, Ledger) {
    let marketplace = Marketplace::new(PACKAGE, DEFAULT_ACCOUNT);
    let registry = Registry::new();
    let mut ledger = Ledger::new();
    ledger.fund_account(DEFAULT_ACCOUNT, STARTING_BALANCE).unwrap();
    for account in 0..10u64 {
        ledger.fund_account(account, STARTING_BALANCE).unwrap();
    }
    (marketplace, registry, ledger)
}

fn mint_nft(registry: &mut Registry) {
    registry.mint(Address::Account(DEFAULT_ACCOUNT), COLLECTION, 0).unwrap();
    registry.mint(Address::Account(DEFAULT_ACCOUNT), COLLECTION, 1).unwrap();
}

fn approve_nft(registry: &mut Registry) {
    registry
        .approve(
            Address::Account(DEFAULT_ACCOUNT),
            COLLECTION,
            0,
            Address::ContractPackage(PACKAGE),
        )
        .unwrap();
}

fn create_order(marketplace: &mut Marketplace, registry: &mut Registry) {
    marketplace
        .create_order(registry, DEFAULT_ACCOUNT, COLLECTION, 0, TOKEN_PRICE)
        .unwrap();
}

fn pre_buy_order(marketplace: &mut Marketplace, registry: &mut Registry, ledger: &mut Ledger) {
    ledger.deposit(DEFAULT_ACCOUNT, TOKEN_PRICE).unwrap();
    marketplace
        .buy_order(registry, ledger, DEFAULT_ACCOUNT, COLLECTION, 0, TOKEN_PRICE)
        .unwrap();
}

#[test]
fn should_install_contract() {
    let (marketplace, _registry, ledger) = setup();
    assert_eq!(marketplace.fee, 25);
    assert_eq!(marketplace.treasury_wallet, DEFAULT_ACCOUNT);
    assert_eq!(marketplace.purse_balance, 0);
    assert_eq!(ledger.escrow, 0);
    assert!(marketplace.events.is_empty());
}

#[test]
fn should_mint_nft() {
    let (_marketplace, mut registry, _ledger) = setup();
    mint_nft(&mut registry);
    assert_eq!(registry.owner_of(COLLECTION, 0), Some(Address::Account(DEFAULT_ACCOUNT)));
    assert_eq!(registry.owner_of(COLLECTION, 1), Some(Address::Account(DEFAULT_ACCOUNT)));
}

#[test]
fn should_approve_nft() {
    let (_marketplace, mut registry, _ledger) = setup();
    mint_nft(&mut registry);
    approve_nft(&mut registry);
    assert_eq!(
        registry.get_approved(Address::Account(DEFAULT_ACCOUNT), COLLECTION, 0),
        Some(Address::ContractPackage(PACKAGE))
    );
}

#[test]
fn should_transfer_from_nft() {
    let (_marketplace, mut registry, _ledger) = setup();
    mint_nft(&mut registry);
    approve_nft(&mut registry);
    let moved = registry.transfer_from(
        Address::Account(DEFAULT_ACCOUNT),
        Address::ContractPackage(PACKAGE),
        COLLECTION,
        0,
    );
    assert!(moved);
    assert_eq!(
        registry.owner_of(COLLECTION, 0),
        Some(Address::ContractPackage(PACKAGE))
    );
}

#[test]
fn should_create_order() {
    let (mut marketplace, mut registry, _ledger) = setup();
    mint_nft(&mut registry);
    approve_nft(&mut registry);
    create_order(&mut marketplace, &mut registry);
    assert_eq!(
        registry.owner_of(COLLECTION, 0),
        Some(Address::ContractPackage(PACKAGE))
    );
    assert_eq!(
        marketplace.events.last(),
        Some(&Event::OrderCreated {
            offerer: DEFAULT_ACCOUNT,
            collection: COLLECTION,
            token_id: 0,
            price: TOKEN_PRICE,
        })
    );
}

#[test]
fn should_buy_order() {
    let (mut marketplace, mut registry, mut ledger) = setup();
    mint_nft(&mut registry);
    approve_nft(&mut registry);
    create_order(&mut marketplace, &mut registry);
    pre_buy_order(&mut marketplace, &mut registry, &mut ledger);
    assert_eq!(
        registry.owner_of(COLLECTION, 0),
        Some(Address::Account(DEFAULT_ACCOUNT))
    );
    assert_eq!(
        marketplace.events.last(),
        Some(&Event::OrderBought {
            offerer: DEFAULT_ACCOUNT,
            collection: COLLECTION,
            token_id: 0,
            price: TOKEN_PRICE,
        })
    );
}

#[test]
fn should_cancel_order() {
    let (mut marketplace, mut registry, _ledger) = setup();
    mint_nft(&mut registry);
    approve_nft(&mut registry);
    create_order(&mut marketplace, &mut registry);
    marketplace
        .cancel_order(&mut registry, DEFAULT_ACCOUNT, COLLECTION, 0)
        .unwrap();
    match marketplace.result {
        Some(StoredResult::Order(order)) => {
            assert_eq!(order.is_active, false);
        },
        _ => panic!("expected an order result"),
    }
}

#[test]
fn round_trip_listing_restores_custody() {
    let (mut marketplace, mut registry, _ledger) = setup();
    mint_nft(&mut registry);
    approve_nft(&mut registry);
    create_order(&mut marketplace, &mut registry);
    marketplace
        .cancel_order(&mut registry, DEFAULT_ACCOUNT, COLLECTION, 0)
        .unwrap();
    assert_eq!(
        registry.owner_of(COLLECTION, 0),
        Some(Address::Account(DEFAULT_ACCOUNT))
    );
    approve_nft(&mut registry);
    assert_eq!(
        marketplace.create_order(&mut registry, DEFAULT_ACCOUNT, COLLECTION, 0, TOKEN_PRICE),
        Ok(())
    );
}

#[test]
fn create_order_twice_fails_order_exist() {
    let (mut marketplace, mut registry, _ledger) = setup();
    mint_nft(&mut registry);
    approve_nft(&mut registry);
    create_order(&mut marketplace, &mut registry);
    assert_eq!(
        marketplace.create_order(&mut registry, DEFAULT_ACCOUNT, COLLECTION, 0, TOKEN_PRICE),
        Err(Error::OrderExist)
    );
}

#[test]
fn create_order_without_approval_fails() {
    let (mut marketplace, mut registry, _ledger) = setup();
    mint_nft(&mut registry);
    assert_eq!(
        marketplace.create_order(&mut registry, DEFAULT_ACCOUNT, COLLECTION, 0, TOKEN_PRICE),
        Err(Error::NotApproved)
    );
}

#[test]
fn cancel_missing_order_fails() {
    let (mut marketplace, mut registry, _ledger) = setup();
    assert_eq!(
        marketplace.cancel_order(&mut registry, DEFAULT_ACCOUNT, COLLECTION, 0),
        Err(Error::OrderNotExist)
    );
}

#[test]
fn cancel_order_by_non_maker_fails() {
    let (mut marketplace, mut registry, _ledger) = setup();
    mint_nft(&mut registry);
    approve_nft(&mut registry);
    create_order(&mut marketplace, &mut registry);
    assert_eq!(
        marketplace.cancel_order(&mut registry, 2, COLLECTION, 0),
        Err(Error::NotOrderMaker)
    );
}

#[test]
fn buy_missing_order_fails() {
    let (mut marketplace, mut registry, mut ledger) = setup();
    assert_eq!(
        marketplace.buy_order(&mut registry, &mut ledger, DEFAULT_ACCOUNT, COLLECTION, 0, 5),
        Err(Error::OrderNotExist)
    );
}

#[test]
fn buy_order_with_wrong_amount_fails() {
    let (mut marketplace, mut registry, mut ledger) = setup();
    mint_nft(&mut registry);
    approve_nft(&mut registry);
    create_order(&mut marketplace, &mut registry);
    let wrong: u128 = TOKEN_PRICE - 1;
    ledger.deposit(DEFAULT_ACCOUNT, wrong).unwrap();
    assert_eq!(
        marketplace.buy_order(&mut registry, &mut ledger, DEFAULT_ACCOUNT, COLLECTION, 0, wrong),
        Err(Error::NotValidAmount)
    );
}

#[test]
fn buy_order_by_non_maker_fails() {
    let (mut marketplace, mut registry, mut ledger) = setup();
    mint_nft(&mut registry);
    approve_nft(&mut registry);
    create_order(&mut marketplace, &mut registry);
    ledger.deposit(2, TOKEN_PRICE).unwrap();
    assert_eq!(
        marketplace.buy_order(&mut registry, &mut ledger, 2, COLLECTION, 0, TOKEN_PRICE),
        Err(Error::NotOrderMaker)
    );
}

#[test]
fn mint_existing_token_fails() {
    let (_marketplace, mut registry, _ledger) = setup();
    mint_nft(&mut registry);
    assert_eq!(
        registry.mint(Address::Account(2), COLLECTION, 0),
        Err(Error::KeyAlreadyExists)
    );
}

#[test]
fn approve_by_non_owner_fails() {
    let (_marketplace, mut registry, _ledger) = setup();
    mint_nft(&mut registry);
    assert_eq!(
        registry.approve(Address::Account(2), COLLECTION, 0, Address::ContractPackage(PACKAGE)),
        Err(Error::NotOwner)
    );
}

#[test]
fn orders_on_distinct_tokens_are_independent() {
    let (mut marketplace, mut registry, mut ledger) = setup();
    mint_nft(&mut registry);
    approve_nft(&mut registry);
    registry
        .approve(
            Address::Account(DEFAULT_ACCOUNT),
            COLLECTION,
            1,
            Address::ContractPackage(PACKAGE),
        )
        .unwrap();
    create_order(&mut marketplace, &mut registry);
    marketplace
        .create_order(&mut registry, DEFAULT_ACCOUNT, COLLECTION, 1, 7)
        .unwrap();
    ledger.deposit(DEFAULT_ACCOUNT, 7).unwrap();
    marketplace
        .buy_order(&mut registry, &mut ledger, DEFAULT_ACCOUNT, COLLECTION, 1, 7)
        .unwrap();
    // Buying the second token leaves the first token's listing untouched.
    assert_eq!(marketplace.orders.len(), 2);
    assert_eq!(marketplace.orders[0].is_active, true);
    assert_eq!(marketplace.orders[1].is_active, false);
    assert_eq!(
        registry.owner_of(COLLECTION, 0),
        Some(Address::ContractPackage(PACKAGE))
    );
    assert_eq!(
        registry.owner_of(COLLECTION, 1),
        Some(Address::Account(DEFAULT_ACCOUNT))
    );
}

#[test]
fn create_auction_stores_record() {
    let (mut marketplace, _registry, _ledger) = setup();
    marketplace.create_auction(DEFAULT_ACCOUNT, COLLECTION, 0, 1, Some(5), 10, Some(20));
    match marketplace.result {
        Some(StoredResult::Auction(auction)) => {
            assert_eq!(auction.offerer, DEFAULT_ACCOUNT);
            assert_eq!(auction.collection, COLLECTION);
            assert_eq!(auction.token_id, 0);
            assert_eq!(auction.auction_type, 1);
            assert_eq!(auction.price, Some(5));
            assert_eq!(auction.start_time, 10);
            assert_eq!(auction.end_time, Some(20));
            assert!(auction.bids.is_empty());
        },
        _ => panic!("expected an auction result"),
    }
}
