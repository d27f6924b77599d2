use vstd::prelude::*;

verus! {

/// Lifecycle state of a bid.  A freshly placed bid is `Pending`; the other
/// states belong to the richer offer model and are kept for its records.
#[derive(Clone, Copy, Debug, PartialEq, Eq, Structural)]
pub enum BidStatus {
    Pending,
    Accepted,
    NotAccepted,
    Canceled,
}

/// The status encoded by a byte, for bytes below four.
pub open spec fn bid_status_of_byte(data: u8) -> BidStatus {
    if data == 0 {
        BidStatus::Pending
    } else if data == 1 {
        BidStatus::Accepted
    } else if data == 2 {
        BidStatus::NotAccepted
    } else {
        BidStatus::Canceled
    }
}

impl BidStatus {
    /// Decodes a status from its byte encoding; bytes above three encode no
    /// status and are excluded.
    pub fn from(data: u8) -> (r: BidStatus)
        requires
            data < 4,
        ensures
            r == bid_status_of_byte(data),
    {
        match data {
            0 => BidStatus::Pending,
            1 => BidStatus::Accepted,
            2 => BidStatus::NotAccepted,
            _ => BidStatus::Canceled,
        }
    }
}

/// A single bid on a token: who bid, how much currency of theirs the escrow
/// purse holds for it, and when it was placed.
#[derive(Clone, Copy, Debug, PartialEq, Eq, Structural)]
pub struct Bid {
    /// The account that placed the bid.
    pub offerer: u64,
    /// The bid price; this much of the bidder's currency sits in escrow.
    pub price: u128,
    /// The ledger time at which the bid was placed.
    pub bid_time: u64,
    /// The bid's lifecycle state.
    pub status: BidStatus,
}

} // verus!
