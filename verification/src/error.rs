use vstd::prelude::*;

verus! {

/// Errors surfaced by the marketplace.
///
/// Every operation that can fail returns one of these; a returned error
/// always leaves the marketplace, the registry and the ledger unchanged,
/// which models the all-or-nothing abort of a ledger invocation.
#[derive(Clone, Copy, Debug, PartialEq, Eq, Structural)]
pub enum Error {
    /// An account holds less currency than a transfer asks for.
    InsufficientBalance,
    /// A spender was granted less allowance than a transfer asks for.
    InsufficientAllowance,
    /// The caller may not perform the operation in the current state.
    PermissionDenied,
    /// The token was not approved for transfer to the marketplace.
    NotApproved,
    /// The marketplace did not become the token's registry-recorded owner.
    NotOwner,
    /// The caller is not the maker of the order.
    NotOrderMaker,
    /// The paid amount does not equal the order's price.
    NotValidAmount,
    /// An identical bid already exists.
    BidExist,
    /// An active order already exists for the token.
    OrderExist,
    /// No active order exists for the token.
    OrderNotExist,
    /// The execution context has no caller to report.
    InvalidContext,
    /// A stored key was created twice.
    KeyAlreadyExists,
    /// A stored key does not match the expected one.
    KeyMismatch,
    /// Checked arithmetic overflowed.
    Overflow,
}

} // verus!
