use vstd::prelude::*;

use crate::address::Address;
use crate::error::Error;
use crate::ledger::Ledger;
use crate::marketplace::seller_share;
use crate::marketplace::treasury_share;
use crate::marketplace::lemma_fee_split_bounds;
use crate::marketplace::Marketplace;
use crate::offer::bid_index_by;
use crate::offers::bids_on;
use crate::orders::has_active_order;
use crate::registry::approved_for;
use crate::registry::owner_in;
use crate::registry::Registry;
use crate::sums::outstanding_total;

verus! {

/// At most one active order exists for any token: in a well-formed
/// marketplace, two active order records for the same token are the same
/// record.  The companion half — that listing an already-listed token
/// fails with `OrderExist` — is the error clause of `create_order`'s
/// contract.
pub proof fn lemma_at_most_one_active_order(m: Marketplace, i: int, j: int)
    requires
        m.wf(),
        0 <= i < m.orders@.len(),
        0 <= j < m.orders@.len(),
        m.orders@[i].is_active,
        m.orders@[j].is_active,
        m.orders@[i].collection == m.orders@[j].collection,
        m.orders@[i].token_id == m.orders@[j].token_id,
    ensures
        i == j,
{
}

/// At most one bid per distinct bidder: in a well-formed marketplace, two
/// bids by the same bidder within one offer are the same bid.  Every
/// operation keeps the marketplace well-formed, so this holds after any
/// sequence of `create_offer` calls.
pub proof fn lemma_at_most_one_bid_per_bidder(m: Marketplace, oi: int, i: int, j: int)
    requires
        m.wf(),
        0 <= oi < m.offers@.len(),
        0 <= i < m.offers@[oi].bids@.len(),
        0 <= j < m.offers@[oi].bids@.len(),
        m.offers@[oi].bids@[i].offerer == m.offers@[oi].bids@[j].offerer,
    ensures
        i == j,
{
    assert(m.offers@[oi] == m.offers@[oi]);
}

/// Fee-split correctness: for a fee rate of at most 1000 parts per 1000,
/// the seller's share is `floor(amount * (1000 - fee) / 1000)`, the
/// treasury's share is `floor(amount * fee / 1000)`, and together they
/// never exceed the settled amount; the truncation remainder is paid to
/// nobody.
pub proof fn lemma_fee_split_correctness(amount: u128, fee: u128)
    requires
        fee <= 1000,
    ensures
        seller_share(amount, fee) == (amount * (1000 - fee)) / 1000,
        treasury_share(amount, fee) == (amount * fee) / 1000,
        0 <= seller_share(amount, fee),
        0 <= treasury_share(amount, fee),
        seller_share(amount, fee) + treasury_share(amount, fee) <= amount,
{
    lemma_fee_split_bounds(amount, fee);
}

/// Escrow conservation for a cancelled bid: the purse balance decreases by
/// exactly the refunded price, which the bidder receives in full, and the
/// outstanding bid total decreases by the same price.  The invariant that
/// the purse covers every standing bid is part of `cancel_offer`'s own
/// contract.
pub proof fn lemma_cancel_offer_conserves_escrow(
    pre: Marketplace,
    l0: Ledger,
    post: Marketplace,
    l1: Ledger,
    caller: u64,
    collection: u64,
    token_id: u64,
)
    requires
        Marketplace::cancel_offer_post(pre, l0, post, l1, caller, collection, token_id),
    ensures
        l0.escrow - l1.escrow == bids_on(pre.offers@, collection, token_id)[bid_index_by(
            bids_on(pre.offers@, collection, token_id),
            caller,
        )].price,
        outstanding_total(pre.offers@) - outstanding_total(post.offers@) == l0.escrow
            - l1.escrow,
{
}

/// Escrow conservation for an accepted bid: the purse balance decreases by
/// exactly what was paid out, the seller's and the treasury's share of the
/// accepted price, and the outstanding bid total decreases by the full
/// price.  The difference, the truncation remainder, stays in the purse.
pub proof fn lemma_accept_offer_conserves_escrow(
    pre: Marketplace,
    r0: Registry,
    l0: Ledger,
    post: Marketplace,
    r1: Registry,
    l1: Ledger,
    caller: u64,
    collection: u64,
    token_id: u64,
    bid_id: int,
)
    requires
        Marketplace::accept_offer_post(
            pre,
            r0,
            l0,
            post,
            r1,
            l1,
            caller,
            collection,
            token_id,
            bid_id,
        ),
    ensures
        l0.escrow - l1.escrow == seller_share(
            bids_on(pre.offers@, collection, token_id)[bid_id].price,
            pre.fee,
        ) + treasury_share(bids_on(pre.offers@, collection, token_id)[bid_id].price, pre.fee),
        outstanding_total(pre.offers@) - outstanding_total(post.offers@) == bids_on(
            pre.offers@,
            collection,
            token_id,
        )[bid_id].price,
{
}

/// Escrow conservation for a purchase: the purse balance decreases by
/// exactly what was paid out, the seller's and the treasury's share of the
/// order's price, and no bid's escrowed funds are touched.
pub proof fn lemma_buy_order_conserves_escrow(
    pre: Marketplace,
    r0: Registry,
    l0: Ledger,
    post: Marketplace,
    r1: Registry,
    l1: Ledger,
    caller: u64,
    collection: u64,
    token_id: u64,
)
    requires
        Marketplace::buy_order_post(
            pre,
            r0,
            l0,
            post,
            r1,
            l1,
            caller,
            collection,
            token_id,
        ),
    ensures
        l0.escrow - l1.escrow == seller_share(
            crate::orders::order_in(pre.orders@, collection, token_id)->Some_0.price,
            pre.fee,
        ) + treasury_share(
            crate::orders::order_in(pre.orders@, collection, token_id)->Some_0.price,
            pre.fee,
        ),
        outstanding_total(post.offers@) == outstanding_total(pre.offers@),
{
}

/// Round-trip listing: after `create_order` and a `cancel_order` by the
/// maker, the registry again records the maker as the token's owner and no
/// active listing remains; once the maker re-approves this instance's
/// package as spender, a new `create_order` for the token goes through.
pub proof fn lemma_round_trip_listing(
    m0: Marketplace,
    r0: Registry,
    m1: Marketplace,
    r1: Registry,
    m2: Marketplace,
    r2: Registry,
    r3: Registry,
    caller: u64,
    collection: u64,
    token_id: u64,
    price: u128,
)
    requires
        Marketplace::create_order_post(m0, r0, m1, r1, caller, collection, token_id, price),
        Marketplace::cancel_order_post(m1, r1, m2, r2, caller, collection, token_id),
        approved_for(r3.tokens@, Address::Account(caller), collection, token_id) == Some(
            Address::ContractPackage(m2.package),
        ),
    ensures
        owner_in(r2.tokens@, collection, token_id) == Some(Address::Account(caller)),
        !has_active_order(m2.orders@, collection, token_id),
        m2.create_order_ok(r3, caller, collection, token_id),
{
}

/// An unfunded purchase is refused: with no deposit since the last
/// snapshot and a non-zero claimed amount, `buy_order` on a listed token
/// fails with the permission error of the balance check.  That a refused
/// call leaves every store unchanged is the error clause of `buy_order`'s
/// contract.
pub proof fn lemma_unfunded_buy_order_denied(
    m: Marketplace,
    registry: Registry,
    ledger: Ledger,
    caller: u64,
    collection: u64,
    token_id: u64,
    amount: u128,
)
    requires
        has_active_order(m.orders@, collection, token_id),
        ledger.escrow == m.purse_balance,
        amount > 0,
    ensures
        !m.buy_order_ok(registry, ledger, caller, collection, token_id, amount),
        m.buy_order_err(registry, ledger, caller, collection, token_id, amount)
            == Error::PermissionDenied,
{
}

/// An unfunded bid is refused: with no deposit since the last snapshot
/// and a non-zero claimed amount, `create_offer` fails with the
/// permission error of the balance check.  That a refused call leaves
/// every store unchanged is the error clause of `create_offer`'s
/// contract.
pub proof fn lemma_unfunded_create_offer_denied(
    m: Marketplace,
    ledger: Ledger,
    amount: u128,
)
    requires
        ledger.escrow == m.purse_balance,
        amount > 0,
    ensures
        !m.create_offer_ok(ledger, amount),
{
}

} // verus!
