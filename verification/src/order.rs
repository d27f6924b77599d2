use vstd::prelude::*;

verus! {

/// A fixed-price listing of a single token.
///
/// While an order is active the marketplace instance holds the listed token
/// in escrow.  An order is never deleted: buying or cancelling flags it
/// inactive and the record stays behind for result retrieval.
#[derive(Clone, Copy, Debug, PartialEq, Eq, Structural)]
pub struct Order {
    /// The token registry (collection) the token belongs to.
    pub collection: u64,
    /// The token's identifier within its collection.
    pub token_id: u64,
    /// The account that listed the token.
    pub maker: u64,
    /// The fixed price a buyer must pay.
    pub price: u128,
    /// Whether the listing is still open.
    pub is_active: bool,
}

} // verus!
