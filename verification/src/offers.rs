use vstd::prelude::*;

use crate::address::Address;
use crate::bid::Bid;
use crate::bid::BidStatus;
use crate::error::Error;
use crate::event::Event;
use crate::ledger::balance_in;
use crate::ledger::balances_agree_except;
use crate::ledger::balances_agree_except2;
use crate::ledger::Ledger;
use crate::marketplace::lemma_fee_split_bounds;
use crate::marketplace::seller_share;
use crate::marketplace::treasury_share;
use crate::marketplace::Marketplace;
use crate::marketplace::StoredResult;
use crate::offer::bid_index_by;
use crate::offer::bids_distinct;
use crate::offer::copy_bids;
use crate::offer::has_bid_by;
use crate::offer::lemma_bid_first_match;
use crate::offer::lemma_bids_distinct_remove;
use crate::offer::remove_bid_by;
use crate::offer::Offer;
use crate::registry::owner_in;
use crate::registry::token_in;
use crate::registry::tokens_agree_except;
use crate::registry::Registry;
use crate::registry::TokenRecord;
use crate::sums::bids_total;
use crate::sums::lemma_bids_total_bounds_each;
use crate::sums::lemma_bids_total_nonneg;
use crate::sums::lemma_bids_total_push;
use crate::sums::lemma_bids_total_remove;
use crate::sums::lemma_outstanding_bounds_each;
use crate::sums::lemma_outstanding_nonneg;
use crate::sums::lemma_outstanding_push;
use crate::sums::lemma_outstanding_update;
use crate::sums::outstanding_total;

verus! {

/// The bids standing on token `(collection, token_id)`: the bids of its
/// offer record, or none when no offer exists yet.
pub open spec fn bids_on(offers: Seq<Offer>, collection: u64, token_id: u64) -> Seq<Bid> {
    match offer_in(offers, collection, token_id) {
        Some(offer) => offer.bids@,
        None => Seq::<Bid>::empty(),
    }
}

/// The offer record of token `(collection, token_id)`: its first entry, if
/// any.
pub open spec fn offer_in(offers: Seq<Offer>, collection: u64, token_id: u64) -> Option<Offer>
    decreases offers.len(),
{
    if offers.len() == 0 {
        None
    } else if offers[0].collection == collection && offers[0].token_id == token_id {
        Some(offers[0])
    } else {
        offer_in(offers.drop_first(), collection, token_id)
    }
}

/// Whether token `(collection, token_id)` has an offer record.
pub open spec fn has_offer(offers: Seq<Offer>, collection: u64, token_id: u64) -> bool {
    exists|i: int|
        0 <= i < offers.len() && offers[i].collection == collection && offers[i].token_id
            == token_id
}

/// Every token but `(collection, token_id)` has the same offer record in
/// `o1` as in `o0`.
pub open spec fn offers_agree_except(
    o0: Seq<Offer>,
    o1: Seq<Offer>,
    collection: u64,
    token_id: u64,
) -> bool {
    forall|c: u64, t: u64|
        c != collection || t != token_id ==> offer_in(o1, c, t) == offer_in(o0, c, t)
}

/// No two offer records share a token.
pub open spec fn offers_unique_keys(offers: Seq<Offer>) -> bool {
    forall|i: int, j: int|
        0 <= i < offers.len() && 0 <= j < offers.len() && i != j ==> !((#[trigger] offers[i]).collection
            == (#[trigger] offers[j]).collection && offers[i].token_id == offers[j].token_id)
}

/// Within every offer record, no two bids share a bidder.
pub open spec fn offers_unique_bidders(offers: Seq<Offer>) -> bool {
    forall|oi: int| 0 <= oi < offers.len() ==> bids_distinct((#[trigger] offers[oi]).bids@)
}

/// Overwriting an entry with a record for the same token keeps offer keys
/// unique.
pub proof fn lemma_offers_unique_update(offers: Seq<Offer>, i: int, offer: Offer)
    requires
        offers_unique_keys(offers),
        0 <= i < offers.len(),
        offer.collection == offers[i].collection,
        offer.token_id == offers[i].token_id,
    ensures
        offers_unique_keys(offers.update(i, offer)),
{
    let upd = offers.update(i, offer);
    assert forall|a: int, b: int|
        0 <= a < upd.len() && 0 <= b < upd.len() && a != b implies !((#[trigger] upd[a]).collection
        == (#[trigger] upd[b]).collection && upd[a].token_id == upd[b].token_id) by {
        assert(upd[a].collection == offers[a].collection && upd[a].token_id
            == offers[a].token_id);
        assert(upd[b].collection == offers[b].collection && upd[b].token_id
            == offers[b].token_id);
        assert(!(offers[a].collection == offers[b].collection && offers[a].token_id
            == offers[b].token_id));
    }
}

/// Appending a record for a token without one keeps offer keys unique.
pub proof fn lemma_offers_unique_push(offers: Seq<Offer>, offer: Offer)
    requires
        offers_unique_keys(offers),
        !has_offer(offers, offer.collection, offer.token_id),
    ensures
        offers_unique_keys(offers.push(offer)),
{
    let ext = offers.push(offer);
    assert forall|a: int, b: int|
        0 <= a < ext.len() && 0 <= b < ext.len() && a != b implies !((#[trigger] ext[a]).collection
        == (#[trigger] ext[b]).collection && ext[a].token_id == ext[b].token_id) by {
        if a < offers.len() && b < offers.len() {
            assert(!(offers[a].collection == offers[b].collection && offers[a].token_id
                == offers[b].token_id));
        } else if a < offers.len() {
            assert(ext[b] == offer);
            if offers[a].collection == offer.collection && offers[a].token_id
                == offer.token_id {
                assert(has_offer(offers, offer.collection, offer.token_id));
            }
        } else {
            assert(ext[a] == offer);
            if offers[b].collection == offer.collection && offers[b].token_id
                == offer.token_id {
                assert(has_offer(offers, offer.collection, offer.token_id));
            }
        }
    }
}

/// Overwriting an entry with a record whose bidders are distinct keeps all
/// offers' bidders distinct.
pub proof fn lemma_offers_bidders_update(offers: Seq<Offer>, i: int, offer: Offer)
    requires
        offers_unique_bidders(offers),
        0 <= i < offers.len(),
        bids_distinct(offer.bids@),
    ensures
        offers_unique_bidders(offers.update(i, offer)),
{
    let upd = offers.update(i, offer);
    assert forall|oi: int| 0 <= oi < upd.len() implies bids_distinct(
        (#[trigger] upd[oi]).bids@,
    ) by {
        if oi != i {
            assert(upd[oi] == offers[oi]);
        }
    }
}

/// Appending a record whose bidders are distinct keeps all offers' bidders
/// distinct.
pub proof fn lemma_offers_bidders_push(offers: Seq<Offer>, offer: Offer)
    requires
        offers_unique_bidders(offers),
        bids_distinct(offer.bids@),
    ensures
        offers_unique_bidders(offers.push(offer)),
{
    let ext = offers.push(offer);
    assert forall|oi: int| 0 <= oi < ext.len() implies bids_distinct(
        (#[trigger] ext[oi]).bids@,
    ) by {
        if oi < offers.len() {
            assert(ext[oi] == offers[oi]);
        } else {
            assert(ext[oi] == offer);
        }
    }
}

/// A first-match entry is the token's offer record.
pub proof fn lemma_offer_first_match(offers: Seq<Offer>, i: int)
    requires
        0 <= i < offers.len(),
        forall|j: int|
            0 <= j < i ==> !(offers[j].collection == offers[i].collection && offers[j].token_id
                == offers[i].token_id),
    ensures
        offer_in(offers, offers[i].collection, offers[i].token_id) == Some(offers[i]),
    decreases i,
{
    if i > 0 {
        let rest = offers.drop_first();
        assert forall|j: int| 0 <= j < i - 1 implies !((#[trigger] rest[j]).collection == rest[i
            - 1].collection && rest[j].token_id == rest[i - 1].token_id) by {
            assert(rest[j] == offers[j + 1]);
        }
        lemma_offer_first_match(rest, i - 1);
    }
}

/// A token without an entry has no offer record.
pub proof fn lemma_offer_no_match(offers: Seq<Offer>, collection: u64, token_id: u64)
    requires
        !has_offer(offers, collection, token_id),
    ensures
        offer_in(offers, collection, token_id) is None,
    decreases offers.len(),
{
    if offers.len() > 0 {
        let rest = offers.drop_first();
        assert(!has_offer(rest, collection, token_id)) by {
            if has_offer(rest, collection, token_id) {
                let w = choose|i: int|
                    0 <= i < rest.len() && rest[i].collection == collection && rest[i].token_id
                        == token_id;
                assert(offers[w + 1].collection == collection && offers[w + 1].token_id
                    == token_id);
            }
        }
        lemma_offer_no_match(rest, collection, token_id);
    }
}

/// Overwriting a token's first-match entry with a record for the same
/// token sets that token's record and no other.
pub proof fn lemma_offer_update(offers: Seq<Offer>, i: int, offer: Offer)
    requires
        0 <= i < offers.len(),
        offer.collection == offers[i].collection,
        offer.token_id == offers[i].token_id,
        forall|j: int|
            0 <= j < i ==> !(offers[j].collection == offers[i].collection && offers[j].token_id
                == offers[i].token_id),
    ensures
        offer_in(offers.update(i, offer), offer.collection, offer.token_id) == Some(offer),
        offers_agree_except(offers, offers.update(i, offer), offer.collection, offer.token_id),
    decreases i,
{
    let upd = offers.update(i, offer);
    if i == 0 {
        assert(upd.drop_first() =~= offers.drop_first());
        assert forall|c: u64, t: u64| c != offer.collection || t != offer.token_id implies
            offer_in(upd, c, t) == offer_in(offers, c, t) by {}
    } else {
        let rest = offers.drop_first();
        assert forall|j: int| 0 <= j < i - 1 implies !((#[trigger] rest[j]).collection == rest[i
            - 1].collection && rest[j].token_id == rest[i - 1].token_id) by {
            assert(rest[j] == offers[j + 1]);
        }
        assert(rest[i - 1] == offers[i]);
        lemma_offer_update(rest, i - 1, offer);
        assert(upd.drop_first() =~= rest.update(i - 1, offer));
        assert(upd[0] == offers[0]);
        assert forall|c: u64, t: u64| c != offer.collection || t != offer.token_id implies
            offer_in(upd, c, t) == offer_in(offers, c, t) by {
            if !(offers[0].collection == c && offers[0].token_id == t) {
                assert(offer_in(upd, c, t) == offer_in(rest.update(i - 1, offer), c, t));
                assert(offer_in(offers, c, t) == offer_in(rest, c, t));
            }
        }
    }
}

/// Appending an entry for a token without one sets that token's record and
/// no other.
pub proof fn lemma_offer_push(offers: Seq<Offer>, offer: Offer)
    requires
        !has_offer(offers, offer.collection, offer.token_id),
    ensures
        offer_in(offers.push(offer), offer.collection, offer.token_id) == Some(offer),
        offers_agree_except(offers, offers.push(offer), offer.collection, offer.token_id),
    decreases offers.len(),
{
    let ext = offers.push(offer);
    if offers.len() == 0 {
        assert(ext.drop_first() =~= offers);
        assert forall|c: u64, t: u64| c != offer.collection || t != offer.token_id implies
            offer_in(ext, c, t) == offer_in(offers, c, t) by {}
    } else {
        let rest = offers.drop_first();
        assert(!has_offer(rest, offer.collection, offer.token_id)) by {
            if has_offer(rest, offer.collection, offer.token_id) {
                let w = choose|i: int|
                    0 <= i < rest.len() && rest[i].collection == offer.collection
                        && rest[i].token_id == offer.token_id;
                assert(offers[w + 1].collection == offer.collection && offers[w + 1].token_id
                    == offer.token_id);
            }
        }
        lemma_offer_push(rest, offer);
        assert(ext.drop_first() =~= rest.push(offer));
        assert(ext[0] == offers[0]);
        assert(!(offers[0].collection == offer.collection && offers[0].token_id
            == offer.token_id));
        assert forall|c: u64, t: u64| c != offer.collection || t != offer.token_id implies
            offer_in(ext, c, t) == offer_in(offers, c, t) by {
            if !(offers[0].collection == c && offers[0].token_id == t) {
                assert(offer_in(ext, c, t) == offer_in(rest.push(offer), c, t));
                assert(offer_in(offers, c, t) == offer_in(rest, c, t));
            }
        }
    }
}

/// Returns the position of the token's first offer entry, if it has one.
pub(crate) fn find_offer(offers: &Vec<Offer>, collection: u64, token_id: u64) -> (r: Option<
    usize,
>)
    ensures
        match r {
            Some(i) => i < offers@.len() && offers@[i as int].collection == collection
                && offers@[i as int].token_id == token_id && (forall|j: int|
                0 <= j < i ==> !(offers@[j].collection == collection && offers@[j].token_id
                    == token_id)),
            None => !has_offer(offers@, collection, token_id),
        },
{
    let mut index: usize = 0;
    while index < offers.len()
        invariant
            index <= offers@.len(),
            forall|j: int|
                0 <= j < index ==> !(offers@[j].collection == collection && offers@[j].token_id
                    == token_id),
        decreases offers@.len() - index,
    {
        if offers[index].collection == collection && offers[index].token_id == token_id {
            return Some(index);
        }
        index += 1;
    }
    None
}

impl Marketplace {
    /// Whether a bid of `amount` on token `(collection, token_id)` goes
    /// through: exactly `amount` was deposited into the escrow purse since
    /// the last snapshot.
    pub open spec fn create_offer_ok(self, ledger: Ledger, amount: u128) -> bool {
        self.purse_balance + amount == ledger.escrow
    }

    /// What a completed bid did: the bidder's earlier bid, if any, was
    /// dropped, the new bid was appended, the snapshot was refreshed, the
    /// updated offer was stored as the result and the bid logged.  Nothing
    /// else changed.
    pub open spec fn create_offer_post(
        pre: Marketplace,
        ledger: Ledger,
        post: Marketplace,
        caller: u64,
        collection: u64,
        token_id: u64,
        amount: u128,
        bid_time: u64,
    ) -> bool {
        let bid = Bid { offerer: caller, price: amount, bid_time, status: BidStatus::Pending };
        let new_bids = remove_bid_by(bids_on(pre.offers@, collection, token_id), caller).push(bid);
        &&& match offer_in(post.offers@, collection, token_id) {
            Some(offer) => offer.bids@ == new_bids,
            None => false,
        }
        &&& offers_agree_except(pre.offers@, post.offers@, collection, token_id)
        &&& post.purse_balance == ledger.escrow
        &&& match post.result {
            Some(StoredResult::Offer(offer)) => offer.collection == collection && offer.token_id
                == token_id && offer.bids@ == new_bids,
            _ => false,
        }
        &&& outstanding_total(post.offers@) == outstanding_total(pre.offers@) - bids_total(
            bids_on(pre.offers@, collection, token_id),
        ) + bids_total(new_bids)
        &&& post.events@ == pre.events@.push(
            Event::OfferCreated { offerer: caller, collection, token_id, price: amount },
        )
        &&& post == (Marketplace {
            purse_balance: post.purse_balance,
            offers: post.offers,
            events: post.events,
            result: post.result,
            ..pre
        })
    }

    /// Places a bid of `amount` on token `(collection, token_id)`: after
    /// validating the deposit against the snapshot, replaces the caller's
    /// earlier bid or appends a first one, stores the updated offer as the
    /// result and logs the bid.  An unfunded call is refused.
    #[verifier::rlimit(60)]
    pub fn create_offer(
        &mut self,
        ledger: &Ledger,
        caller: u64,
        collection: u64,
        token_id: u64,
        amount: u128,
        bid_time: u64,
    ) -> (r: Result<(), Error>)
        requires
            old(self).wf(),
            old(self).escrow_ok(*ledger),
        ensures
            final(self).wf(),
            final(self).escrow_ok(*ledger),
            match r {
                Ok(()) => old(self).create_offer_ok(*ledger, amount)
                    && Marketplace::create_offer_post(
                    *old(self),
                    *ledger,
                    *final(self),
                    caller,
                    collection,
                    token_id,
                    amount,
                    bid_time,
                ),
                Err(e) => *final(self) == *old(self) && !old(self).create_offer_ok(
                    *ledger,
                    amount,
                ) && e == Error::PermissionDenied,
            },
    {
        if !(amount <= u128::MAX - self.purse_balance && self.purse_balance + amount
            == ledger.escrow) {
            return Err(Error::PermissionDenied);
        }
        let bid = Bid { offerer: caller, price: amount, bid_time, status: BidStatus::Pending };
        let find_result = find_offer(&self.offers, collection, token_id);
        match find_result {
            Some(i) => {
                proof {
                    lemma_offer_first_match(self.offers@, i as int);
                    assert(bids_distinct(self.offers@[i as int].bids@));
                }
                let ghost old_bids = self.offers@[i as int].bids@;
                let offer = &mut self.offers[i];
                offer.replace_bid(caller, bid);
                let bids_copy = copy_bids(&self.offers[i].bids);
                proof {
                    let updated = self.offers@[i as int];
                    lemma_offer_update(old(self).offers@, i as int, updated);
                    lemma_offers_unique_update(old(self).offers@, i as int, updated);
                    lemma_offers_bidders_update(old(self).offers@, i as int, updated);
                    lemma_outstanding_update(old(self).offers@, i as int, updated);
                    lemma_bids_total_nonneg(old_bids);
                }
                self.result = Some(StoredResult::Offer(Offer { collection, token_id, bids:
                    bids_copy }));
                self.purse_balance = ledger.escrow;
                self.events.push(
                    Event::OfferCreated { offerer: caller, collection, token_id, price: amount },
                );
                Ok(())
            },
            None => {
                proof {
                    lemma_offer_no_match(self.offers@, collection, token_id);
                }
                let mut bids: Vec<Bid> = Vec::new();
                bids.push(bid);
                let mut result_bids: Vec<Bid> = Vec::new();
                result_bids.push(bid);
                let offer = Offer { collection, token_id, bids };
                proof {
                    assert(offer.bids@ =~= Seq::<Bid>::empty().push(bid));
                    lemma_bids_total_push(Seq::<Bid>::empty(), bid);
                    assert(bids_distinct(Seq::<Bid>::empty().push(bid)));
                    lemma_offer_push(self.offers@, offer);
                    lemma_offers_unique_push(self.offers@, offer);
                    lemma_offers_bidders_push(self.offers@, offer);
                    lemma_outstanding_push(self.offers@, offer);
                }
                self.offers.push(offer);
                self.result = Some(StoredResult::Offer(Offer { collection, token_id, bids:
                    result_bids }));
                self.purse_balance = ledger.escrow;
                self.events.push(
                    Event::OfferCreated { offerer: caller, collection, token_id, price: amount },
                );
                Ok(())
            },
        }
    }

    /// Whether a cancellation of `caller`'s bid on token `(collection,
    /// token_id)` goes through: the caller has a standing bid and the
    /// refund does not overflow the caller's balance.
    pub open spec fn cancel_offer_ok(
        self,
        ledger: Ledger,
        caller: u64,
        collection: u64,
        token_id: u64,
    ) -> bool {
        let bids = bids_on(self.offers@, collection, token_id);
        &&& has_bid_by(bids, caller)
        &&& balance_in(ledger.accounts@, caller) + bids[bid_index_by(bids, caller)].price
            <= u128::MAX
    }

    /// The error a refused cancellation reports: a caller without a
    /// standing bid is refused outright; otherwise only the refund's
    /// overflow check can fail.
    pub open spec fn cancel_offer_err(
        self,
        ledger: Ledger,
        caller: u64,
        collection: u64,
        token_id: u64,
    ) -> Error {
        let bids = bids_on(self.offers@, collection, token_id);
        if !has_bid_by(bids, caller) {
            Error::PermissionDenied
        } else {
            Error::Overflow
        }
    }

    /// What a completed cancellation did: the bid's price went back to the
    /// bidder out of escrow, the bid was dropped, the snapshot refreshed,
    /// the updated offer stored as the result and the cancellation logged.
    /// Nothing else changed.
    pub open spec fn cancel_offer_post(
        pre: Marketplace,
        l0: Ledger,
        post: Marketplace,
        l1: Ledger,
        caller: u64,
        collection: u64,
        token_id: u64,
    ) -> bool {
        let bids = bids_on(pre.offers@, collection, token_id);
        let j = bid_index_by(bids, caller);
        let price = bids[j].price;
        let new_bids = bids.remove(j);
        &&& match offer_in(post.offers@, collection, token_id) {
            Some(offer) => offer.bids@ == new_bids,
            None => false,
        }
        &&& offers_agree_except(pre.offers@, post.offers@, collection, token_id)
        &&& l1.escrow == l0.escrow - price
        &&& balance_in(l1.accounts@, caller) == balance_in(l0.accounts@, caller) + price
        &&& balances_agree_except(l0.accounts@, l1.accounts@, caller)
        &&& post.purse_balance == l1.escrow
        &&& match post.result {
            Some(StoredResult::Offer(offer)) => offer.collection == collection && offer.token_id
                == token_id && offer.bids@ == new_bids,
            _ => false,
        }
        &&& outstanding_total(post.offers@) == outstanding_total(pre.offers@) - price
        &&& post.events@ == pre.events@.push(
            Event::OfferCanceled { offerer: caller, collection, token_id },
        )
        &&& post == (Marketplace {
            purse_balance: post.purse_balance,
            offers: post.offers,
            events: post.events,
            result: post.result,
            ..pre
        })
    }

    /// Cancels `caller`'s standing bid on token `(collection, token_id)`:
    /// refunds the bid's price out of escrow, drops the bid, stores the
    /// updated offer as the result and logs the cancellation.  A caller
    /// without a standing bid is refused.
    pub fn cancel_offer(
        &mut self,
        ledger: &mut Ledger,
        caller: u64,
        collection: u64,
        token_id: u64,
    ) -> (r: Result<(), Error>)
        requires
            old(self).wf(),
            old(self).escrow_ok(*old(ledger)),
        ensures
            final(self).wf(),
            final(self).escrow_ok(*final(ledger)),
            match r {
                Ok(()) => old(self).cancel_offer_ok(*old(ledger), caller, collection, token_id)
                    && Marketplace::cancel_offer_post(
                    *old(self),
                    *old(ledger),
                    *final(self),
                    *final(ledger),
                    caller,
                    collection,
                    token_id,
                ),
                Err(e) => *final(self) == *old(self) && *final(ledger) == *old(ledger) && !old(
                    self,
                ).cancel_offer_ok(*old(ledger), caller, collection, token_id) && e == old(
                    self,
                ).cancel_offer_err(*old(ledger), caller, collection, token_id),
            },
    {
        let find_result = find_offer(&self.offers, collection, token_id);
        match find_result {
            None => {
                proof {
                    lemma_offer_no_match(self.offers@, collection, token_id);
                }
                Err(Error::PermissionDenied)
            },
            Some(i) => {
                proof {
                    lemma_offer_first_match(self.offers@, i as int);
                    assert(bids_distinct(self.offers@[i as int].bids@));
                }
                let ghost old_bids = self.offers@[i as int].bids@;
                let bid_index = self.offers[i].get_bid_index_by_account(caller);
                match bid_index {
                    None => Err(Error::PermissionDenied),
                    Some(j) => {
                        proof {
                            lemma_bid_first_match(old_bids, j as int, caller);
                        }
                        let bid = self.offers[i].bids[j];
                        proof {
                            lemma_bids_total_bounds_each(old_bids, j as int);
                            lemma_outstanding_bounds_each(old(self).offers@, i as int);
                        }
                        match self.transfer(ledger, caller, bid.price) {
                            Err(e) => {
                                return Err(e);
                            },
                            Ok(()) => {},
                        }
                        proof {
                            lemma_bids_total_remove(old_bids, j as int);
                            lemma_bids_distinct_remove(old_bids, j as int);
                        }
                        let offer = &mut self.offers[i];
                        offer.bids.remove(j);
                        let bids_copy = copy_bids(&self.offers[i].bids);
                        proof {
                            let updated = self.offers@[i as int];
                            lemma_offer_update(old(self).offers@, i as int, updated);
                            lemma_offers_unique_update(old(self).offers@, i as int, updated);
                            lemma_offers_bidders_update(old(self).offers@, i as int, updated);
                            lemma_outstanding_update(old(self).offers@, i as int, updated);
                        }
                        self.result = Some(StoredResult::Offer(Offer { collection, token_id, bids:
                            bids_copy }));
                        self.events.push(
                            Event::OfferCanceled { offerer: caller, collection, token_id },
                        );
                        Ok(())
                    },
                }
            },
        }
    }

    /// Whether `caller`'s acceptance of the bid at `bid_id` on token
    /// `(collection, token_id)` goes through: the registry records the
    /// caller as the token's owner and the fee-split settlement of the
    /// bid's price to the caller is feasible.
    pub open spec fn accept_offer_ok(
        self,
        registry: Registry,
        ledger: Ledger,
        caller: u64,
        collection: u64,
        token_id: u64,
        bid_id: int,
    ) -> bool {
        let bids = bids_on(self.offers@, collection, token_id);
        &&& owner_in(registry.tokens@, collection, token_id) == Some(Address::Account(caller))
        &&& self.transfer_with_fee_ok(ledger, caller, bids[bid_id].price)
    }

    /// The error a refused acceptance reports: a caller the registry does
    /// not record as owner is refused outright; otherwise the settlement's
    /// first failing check decides.
    pub open spec fn accept_offer_err(
        self,
        registry: Registry,
        ledger: Ledger,
        caller: u64,
        collection: u64,
        token_id: u64,
        bid_id: int,
    ) -> Error {
        let bids = bids_on(self.offers@, collection, token_id);
        if owner_in(registry.tokens@, collection, token_id) != Some(Address::Account(caller)) {
            Error::PermissionDenied
        } else {
            self.transfer_with_fee_err(ledger, caller, bids[bid_id].price)
        }
    }

    /// What a completed acceptance did: the accepted bid's price was
    /// settled to the caller and the treasury under the fee rate, the
    /// token went to the accepted bidder, the bid was dropped and the
    /// acceptance logged.  The other bids stand untouched; nothing else
    /// changed.
    pub open spec fn accept_offer_post(
        pre: Marketplace,
        r0: Registry,
        l0: Ledger,
        post: Marketplace,
        r1: Registry,
        l1: Ledger,
        caller: u64,
        collection: u64,
        token_id: u64,
        bid_id: int,
    ) -> bool {
        let bids = bids_on(pre.offers@, collection, token_id);
        let accepted = bids[bid_id];
        let s = seller_share(accepted.price, pre.fee);
        let t = treasury_share(accepted.price, pre.fee);
        &&& match offer_in(post.offers@, collection, token_id) {
            Some(offer) => offer.bids@ == bids.remove(bid_id),
            None => false,
        }
        &&& offers_agree_except(pre.offers@, post.offers@, collection, token_id)
        &&& token_in(r1.tokens@, collection, token_id) == Some(
            TokenRecord {
                collection,
                token_id,
                owner: Address::Account(accepted.offerer),
                approved: None::<Address>,
            },
        )
        &&& tokens_agree_except(r0.tokens@, r1.tokens@, collection, token_id)
        &&& l1.escrow == l0.escrow - s - t
        &&& if caller == pre.treasury_wallet {
            balance_in(l1.accounts@, caller) == balance_in(l0.accounts@, caller) + s + t
        } else {
            balance_in(l1.accounts@, caller) == balance_in(l0.accounts@, caller) + s
                && balance_in(l1.accounts@, pre.treasury_wallet) == balance_in(
                l0.accounts@,
                pre.treasury_wallet,
            ) + t
        }
        &&& balances_agree_except2(l0.accounts@, l1.accounts@, caller, pre.treasury_wallet)
        &&& post.purse_balance == l1.escrow
        &&& outstanding_total(post.offers@) == outstanding_total(pre.offers@) - accepted.price
        &&& post.events@ == pre.events@.push(
            Event::OfferAccepted { offerer: caller, collection, token_id, price: accepted.price },
        )
        &&& post == (Marketplace {
            purse_balance: post.purse_balance,
            offers: post.offers,
            events: post.events,
            ..pre
        })
    }

    /// Accepts the bid at position `bid_id` on token `(collection,
    /// token_id)`: settles the bid's price to the caller and the treasury
    /// under the fee rate, hands the token to the accepted bidder through
    /// the registry, drops the bid and logs the acceptance.  Only the
    /// token's recorded owner can accept — anyone else is refused before
    /// the position is looked at — and the owner's position must name a
    /// standing bid.  The other bidders' funds stay in escrow.
    pub fn accept_offer(
        &mut self,
        registry: &mut Registry,
        ledger: &mut Ledger,
        caller: u64,
        collection: u64,
        token_id: u64,
        bid_id: usize,
    ) -> (r: Result<(), Error>)
        requires
            old(self).wf(),
            old(self).custody_ok(*old(registry)),
            old(self).escrow_ok(*old(ledger)),
            owner_in(old(registry).tokens@, collection, token_id) == Some(
                Address::Account(caller),
            ) ==> bid_id < bids_on(old(self).offers@, collection, token_id).len(),
        ensures
            final(self).wf(),
            final(self).custody_ok(*final(registry)),
            final(self).escrow_ok(*final(ledger)),
            match r {
                Ok(()) => old(self).accept_offer_ok(
                    *old(registry),
                    *old(ledger),
                    caller,
                    collection,
                    token_id,
                    bid_id as int,
                ) && Marketplace::accept_offer_post(
                    *old(self),
                    *old(registry),
                    *old(ledger),
                    *final(self),
                    *final(registry),
                    *final(ledger),
                    caller,
                    collection,
                    token_id,
                    bid_id as int,
                ),
                Err(e) => *final(self) == *old(self) && *final(registry) == *old(registry)
                    && *final(ledger) == *old(ledger) && !old(self).accept_offer_ok(
                    *old(registry),
                    *old(ledger),
                    caller,
                    collection,
                    token_id,
                    bid_id as int,
                ) && e == old(self).accept_offer_err(
                    *old(registry),
                    *old(ledger),
                    caller,
                    collection,
                    token_id,
                    bid_id as int,
                ),
            },
    {
        let token_owner = registry.owner_of(collection, token_id);
        let owner_ok = match token_owner {
            Some(Address::Account(a)) => a == caller,
            _ => false,
        };
        if !owner_ok {
            return Err(Error::PermissionDenied);
        }
        let find_result = find_offer(&self.offers, collection, token_id);
        match find_result {
            None => {
                // The recorded owner's position names a standing bid, so a
                // missing offer record cannot be reached here.
                proof {
                    lemma_offer_no_match(self.offers@, collection, token_id);
                    assert(false);
                }
                Err(Error::PermissionDenied)
            },
            Some(i) => {
                proof {
                    lemma_offer_first_match(self.offers@, i as int);
                    assert(bids_distinct(self.offers@[i as int].bids@));
                }
                let ghost old_bids = self.offers@[i as int].bids@;
                let accepted = self.offers[i].bids[bid_id];
                match self.transfer_with_fee(ledger, caller, accepted.price) {
                    Err(e) => {
                        return Err(e);
                    },
                    Ok(()) => {},
                }
                let moved = registry.transfer_from(
                    Address::Account(caller),
                    Address::Account(accepted.offerer),
                    collection,
                    token_id,
                );
                proof {
                    lemma_bids_total_remove(old_bids, bid_id as int);
                    lemma_bids_distinct_remove(old_bids, bid_id as int);
                    lemma_fee_split_bounds(accepted.price, old(self).fee);
                    lemma_bids_total_bounds_each(old_bids, bid_id as int);
                    lemma_outstanding_bounds_each(old(self).offers@, i as int);
                }
                let offer = &mut self.offers[i];
                offer.bids.remove(bid_id);
                proof {
                    let updated = self.offers@[i as int];
                    lemma_offer_update(old(self).offers@, i as int, updated);
                    lemma_offers_unique_update(old(self).offers@, i as int, updated);
                    lemma_offers_bidders_update(old(self).offers@, i as int, updated);
                    lemma_outstanding_update(old(self).offers@, i as int, updated);
                }
                self.events.push(
                    Event::OfferAccepted { offerer: caller, collection, token_id, price:
                        accepted.price },
                );
                proof {
                    assert forall|k: int|
                        0 <= k < self.orders@.len() && (#[trigger] self.orders@[k]).is_active
                        implies owner_in(
                        registry.tokens@,
                        self.orders@[k].collection,
                        self.orders@[k].token_id,
                    ) == Some(Address::ContractPackage(self.package)) by {
                        let order = self.orders@[k];
                        assert(owner_in(old(registry).tokens@, order.collection, order.token_id)
                            == Some(Address::ContractPackage(self.package)));
                        assert(!(order.collection == collection && order.token_id == token_id));
                        assert(token_in(registry.tokens@, order.collection, order.token_id)
                            == token_in(old(registry).tokens@, order.collection, order.token_id));
                    }
                }
                Ok(())
            },
        }
    }
}

} // verus!
