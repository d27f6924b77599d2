use vstd::prelude::*;

verus! {

/// An entry of the event log: the outcome a successful operation records
/// for external observers.
#[derive(Clone, Copy, Debug, PartialEq, Eq, Structural)]
pub enum Event {
    OrderCreated { offerer: u64, collection: u64, token_id: u64, price: u128 },
    OrderBought { offerer: u64, collection: u64, token_id: u64, price: u128 },
    OrderCanceled { offerer: u64, collection: u64, token_id: u64 },
    OfferCreated { offerer: u64, collection: u64, token_id: u64, price: u128 },
    OfferAccepted { offerer: u64, collection: u64, token_id: u64, price: u128 },
    OfferCanceled { offerer: u64, collection: u64, token_id: u64 },
    TreasuryWalletChanged { treasury_wallet: u64 },
    FeeChanged { fee: u128 },
}

} // verus!
