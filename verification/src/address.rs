use vstd::prelude::*;

verus! {

/// The identity a call acts as: either a direct account or a contract
/// package.  Token owners, approved spenders and callers are all addresses.
#[derive(Clone, Copy, Debug, PartialEq, Eq, Structural)]
pub enum Address {
    /// A ledger account.
    Account(u64),
    /// A contract package; the marketplace instance itself is one.
    ContractPackage(u64),
}

/// One frame of the execution call stack, as the surrounding invocation
/// harness reports it.
#[derive(Clone, Copy, Debug, PartialEq, Eq, Structural)]
pub enum CallStackElement {
    /// Session code running directly under an account.
    Session { account: u64 },
    /// Stored session code: it acts in the calling account's context.
    StoredSession { account: u64, contract_package: u64, contract: u64 },
    /// A stored contract: it acts as its own package.
    StoredContract { contract_package: u64, contract: u64 },
}

} // verus!
