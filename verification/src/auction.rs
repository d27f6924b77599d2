use vstd::prelude::*;

use crate::bid::Bid;

verus! {

/// An auction record.
///
/// Auctions are scaffolding: `create_auction` builds and stores a record,
/// but no bidding or settlement operation acts on it afterwards.
#[derive(Clone, Debug)]
pub struct Auction {
    /// The account that opened the auction.
    pub offerer: u64,
    /// The token registry (collection) the token belongs to.
    pub collection: u64,
    /// The token's identifier within its collection.
    pub token_id: u64,
    /// The auction variant, as a raw tag.
    pub auction_type: u8,
    /// The reserve price, if the variant has one.
    pub price: Option<u128>,
    /// When bidding opens.
    pub start_time: u64,
    /// When bidding closes, if the variant has an end.
    pub end_time: Option<u64>,
    /// The bids placed so far; always empty at creation.
    pub bids: Vec<Bid>,
}

} // verus!
