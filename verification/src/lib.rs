//! A fixed-price marketplace for non-fungible tokens.
//!
//! The library is the order/offer/bid state machine of an on-ledger NFT
//! marketplace together with its payment-settlement engine.  A holder lists a
//! token at a fixed price (`create_order`), third parties place competing
//! bids on a token (`create_offer`), and settlement splits every payment
//! between the seller and a treasury wallet according to a parts-per-1000 fee
//! rate.
//!
//! The external collaborators of the contract are modelled explicitly at
//! their interface boundary, so that every rule of the marketplace itself is
//! verified:
//!
//! * [`registry::Registry`] models the external token registry (ownership,
//!   approval and transfer of tokens);
//! * [`ledger::Ledger`] models the native-currency accounts and the escrow
//!   purse owned by the marketplace instance;
//! * [`marketplace::Marketplace`] holds the marketplace's own state: the
//!   configuration (fee rate, treasury wallet), the cached escrow-balance
//!   snapshot, the order and offer stores, the event log and the last-result
//!   slot.
//!
//! Every operation returns a typed result; a returned error means the
//! operation changed nothing, which models the all-or-nothing execution of a
//! ledger invocation.

pub mod address;
pub mod auction;
pub mod bid;
pub mod detail;
pub mod error;
pub mod event;
pub mod laws;
pub mod ledger;
pub mod marketplace;
pub mod offer;
pub mod offers;
pub mod order;
pub mod orders;
pub mod registry;
pub mod sums;
