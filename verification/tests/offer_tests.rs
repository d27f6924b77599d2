use nft_marketplace::address::Address;
use nft_marketplace::bid::Bid;
use nft_marketplace::bid::BidStatus;
use nft_marketplace::error::Error;
use nft_marketplace::event::Event;
use nft_marketplace::ledger::Ledger;
use nft_marketplace::marketplace::Marketplace;
use nft_marketplace::marketplace::StoredResult;
use nft_marketplace::offer::Offer;
use nft_marketplace::registry::Registry;

const DEFAULT_ACCOUNT: u64 = 100;
const PACKAGE: u64 = 500;
const COLLECTION: u64 = 1;
const STARTING_BALANCE: u128 = 30_000_000_000_000;

fn setup() -> (Marketplace, Registry, Ledger) {
    let marketplace = Marketplace::new(PACKAGE, DEFAULT_ACCOUNT);
    let registry = Registry::new();
    let mut ledger = Ledger::new();
    ledger.fund_account(DEFAULT_ACCOUNT, STARTING_BALANCE).unwrap();
    for account in 0..10u64 {
        ledger.fund_account(account, STARTING_BALANCE).unwrap();
    }
    (marketplace, registry, ledger)
}

fn mint_nft(registry: &mut Registry) {
    registry.mint(Address::Account(DEFAULT_ACCOUNT), COLLECTION, 0).unwrap();
    registry.mint(Address::Account(DEFAULT_ACCOUNT), COLLECTION, 1).unwrap();
}

fn approve_nft(registry: &mut Registry) {
    registry
        .approve(
            Address::Account(DEFAULT_ACCOUNT),
            COLLECTION,
            0,
            Address::ContractPackage(PACKAGE),
        )
        .unwrap();
}

fn pre_create_offer(
    marketplace: &mut Marketplace,
    ledger: &mut Ledger,
    maker: u64,
    token_id: u64,
    price: u128,
) {
    ledger.deposit(maker, price).unwrap();
    marketplace
        .create_offer(ledger, maker, COLLECTION, token_id, price, 0)
        .unwrap();
}

#[test]
fn should_set_treasury_wallet() {
    let (mut marketplace, _registry, _ledger) = setup();
    let treasury_wallet: u64 = 1;
    marketplace.set_treasury_wallet(treasury_wallet);
    assert_eq!(marketplace.treasury_wallet, treasury_wallet);
    assert_eq!(
        marketplace.events.last(),
        Some(&Event::TreasuryWalletChanged { treasury_wallet })
    );
}

#[test]
fn should_create_offer() {
    let (mut marketplace, _registry, mut ledger) = setup();
    pre_create_offer(&mut marketplace, &mut ledger, DEFAULT_ACCOUNT, 0, 2_000_000_000);
    pre_create_offer(&mut marketplace, &mut ledger, 2, 0, 3_000_000_000);
    match &marketplace.result {
        Some(StoredResult::Offer(offer)) => {
            assert!(offer.bids.len() == 2);
        },
        _ => panic!("expected an offer result"),
    }
}

#[test]
fn should_cancel_offer() {
    let (mut marketplace, _registry, mut ledger) = setup();
    pre_create_offer(&mut marketplace, &mut ledger, DEFAULT_ACCOUNT, 0, 2_000_000_000);
    pre_create_offer(&mut marketplace, &mut ledger, 2, 0, 3_000_000_000);
    marketplace.cancel_offer(&mut ledger, 2, COLLECTION, 0).unwrap();
    match &marketplace.result {
        Some(StoredResult::Offer(offer)) => {
            assert!(offer.bids.len() == 1);
        },
        _ => panic!("expected an offer result"),
    }
}

#[test]
fn should_accept_offer() {
    let (mut marketplace, mut registry, mut ledger) = setup();
    pre_create_offer(&mut marketplace, &mut ledger, DEFAULT_ACCOUNT, 0, 2_000_000_000);
    pre_create_offer(&mut marketplace, &mut ledger, 2, 0, 3_000_000_000);
    mint_nft(&mut registry);
    approve_nft(&mut registry);
    marketplace
        .accept_offer(&mut registry, &mut ledger, DEFAULT_ACCOUNT, COLLECTION, 0, 1)
        .unwrap();
    assert_eq!(registry.owner_of(COLLECTION, 0), Some(Address::Account(2)));
}

#[test]
fn accept_under_multiple_bids_pays_and_refunds_nothing_else() {
    // Two bidders place bids of 2 and 3 units; accepting the 3-unit bid
    // pays the owner 3 units minus the fee share, hands the token to the
    // 3-unit bidder, and leaves the 2-unit bid's funds in escrow.
    let (mut marketplace, mut registry, mut ledger) = setup();
    marketplace.set_treasury_wallet(7);
    mint_nft(&mut registry);
    approve_nft(&mut registry);
    pre_create_offer(&mut marketplace, &mut ledger, 0, 0, 2);
    pre_create_offer(&mut marketplace, &mut ledger, 2, 0, 3);
    let owner_before = ledger.balance_of(DEFAULT_ACCOUNT);
    marketplace
        .accept_offer(&mut registry, &mut ledger, DEFAULT_ACCOUNT, COLLECTION, 0, 1)
        .unwrap();
    // floor(3 * 975 / 1000) = 2 to the owner, floor(3 * 25 / 1000) = 0 to
    // the treasury; the rounding remainder and the standing 2-unit bid
    // stay in the purse.
    assert_eq!(ledger.balance_of(DEFAULT_ACCOUNT), owner_before + 2);
    assert_eq!(ledger.balance_of(7), STARTING_BALANCE);
    assert_eq!(registry.owner_of(COLLECTION, 0), Some(Address::Account(2)));
    assert_eq!(ledger.escrow, 3);
    assert_eq!(marketplace.offers.len(), 1);
    assert_eq!(marketplace.offers[0].bids.len(), 1);
    assert_eq!(marketplace.offers[0].bids[0].offerer, 0);
    assert_eq!(marketplace.offers[0].bids[0].price, 2);
    match &marketplace.events.last() {
        Some(Event::OfferAccepted { offerer, collection, token_id, price }) => {
            assert_eq!(*offerer, DEFAULT_ACCOUNT);
            assert_eq!(*collection, COLLECTION);
            assert_eq!(*token_id, 0);
            assert_eq!(*price, 3);
        },
        _ => panic!("expected an acceptance event"),
    }
}

#[test]
fn second_bid_by_same_bidder_replaces_first() {
    let (mut marketplace, _registry, mut ledger) = setup();
    pre_create_offer(&mut marketplace, &mut ledger, 2, 0, 2_000_000_000);
    pre_create_offer(&mut marketplace, &mut ledger, 2, 0, 3_000_000_000);
    match &marketplace.result {
        Some(StoredResult::Offer(offer)) => {
            assert_eq!(offer.bids.len(), 1);
            assert_eq!(offer.bids[0].offerer, 2);
            assert_eq!(offer.bids[0].price, 3_000_000_000);
        },
        _ => panic!("expected an offer result"),
    }
    // The replaced bid's deposit is not refunded: both deposits sit in the
    // purse while only the newer bid is outstanding.
    assert_eq!(ledger.escrow, 5_000_000_000);
}

#[test]
fn cancel_offer_refunds_bidder() {
    let (mut marketplace, _registry, mut ledger) = setup();
    pre_create_offer(&mut marketplace, &mut ledger, 2, 0, 3_000_000_000);
    assert_eq!(ledger.balance_of(2), STARTING_BALANCE - 3_000_000_000);
    assert_eq!(ledger.escrow, 3_000_000_000);
    marketplace.cancel_offer(&mut ledger, 2, COLLECTION, 0).unwrap();
    assert_eq!(ledger.balance_of(2), STARTING_BALANCE);
    assert_eq!(ledger.escrow, 0);
    assert_eq!(marketplace.purse_balance, 0);
}

#[test]
fn cancel_offer_without_bid_fails() {
    let (mut marketplace, _registry, mut ledger) = setup();
    assert_eq!(
        marketplace.cancel_offer(&mut ledger, 2, COLLECTION, 0),
        Err(Error::PermissionDenied)
    );
    pre_create_offer(&mut marketplace, &mut ledger, DEFAULT_ACCOUNT, 0, 5);
    assert_eq!(
        marketplace.cancel_offer(&mut ledger, 2, COLLECTION, 0),
        Err(Error::PermissionDenied)
    );
}

#[test]
fn accept_offer_by_non_owner_fails() {
    let (mut marketplace, mut registry, mut ledger) = setup();
    mint_nft(&mut registry);
    pre_create_offer(&mut marketplace, &mut ledger, 2, 0, 5);
    assert_eq!(
        marketplace.accept_offer(&mut registry, &mut ledger, 3, COLLECTION, 0, 0),
        Err(Error::PermissionDenied)
    );
    // A non-owner is refused before the bid position is looked at, even
    // when the position names no standing bid.
    assert_eq!(
        marketplace.accept_offer(&mut registry, &mut ledger, 3, COLLECTION, 0, 9),
        Err(Error::PermissionDenied)
    );
}

#[test]
fn bid_statuses_decode_from_bytes() {
    assert_eq!(BidStatus::from(0), BidStatus::Pending);
    assert_eq!(BidStatus::from(1), BidStatus::Accepted);
    assert_eq!(BidStatus::from(2), BidStatus::NotAccepted);
    assert_eq!(BidStatus::from(3), BidStatus::Canceled);
}

#[test]
fn get_bid_index_finds_first_bid_by_account() {
    let (mut marketplace, _registry, mut ledger) = setup();
    pre_create_offer(&mut marketplace, &mut ledger, 4, 0, 10);
    pre_create_offer(&mut marketplace, &mut ledger, 5, 0, 20);
    match &marketplace.result {
        Some(StoredResult::Offer(offer)) => {
            assert_eq!(offer.get_bid_index_by_account(4), Some(0));
            assert_eq!(offer.get_bid_index_by_account(5), Some(1));
            assert_eq!(offer.get_bid_index_by_account(6), None);
        },
        _ => panic!("expected an offer result"),
    }
}

#[test]
fn offer_equality_is_symmetric_on_identical_bids() {
    let bid_a = Bid { offerer: 1, price: 5, bid_time: 0, status: BidStatus::Pending };
    let bid_b = Bid { offerer: 2, price: 6, bid_time: 0, status: BidStatus::Pending };
    let one = Offer { collection: COLLECTION, token_id: 0, bids: vec![bid_a] };
    let same = Offer { collection: COLLECTION, token_id: 0, bids: vec![bid_a] };
    let longer = Offer { collection: COLLECTION, token_id: 0, bids: vec![bid_a, bid_b] };
    let other = Offer { collection: COLLECTION, token_id: 0, bids: vec![bid_b] };
    assert!(one == same);
    assert!(same == one);
    assert!(!(one == longer));
    assert!(!(longer == one));
    assert!(!(one == other));
}
