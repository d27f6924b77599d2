use vstd::prelude::*;

use crate::bid::Bid;
use crate::offer::Offer;

verus! {

/// The summed price of the bids: the currency the escrow purse holds for
/// them.
pub open spec fn bids_total(bids: Seq<Bid>) -> int
    decreases bids.len(),
{
    if bids.len() == 0 {
        0
    } else {
        bids_total(bids.drop_last()) + bids.last().price
    }
}

/// The summed price of every standing bid of every offer.
pub open spec fn outstanding_total(offers: Seq<Offer>) -> int
    decreases offers.len(),
{
    if offers.len() == 0 {
        0
    } else {
        outstanding_total(offers.drop_last()) + bids_total(offers.last().bids@)
    }
}

/// A sum of bid prices is never negative.
pub proof fn lemma_bids_total_nonneg(bids: Seq<Bid>)
    ensures
        bids_total(bids) >= 0,
    decreases bids.len(),
{
    if bids.len() > 0 {
        lemma_bids_total_nonneg(bids.drop_last());
    }
}

/// Appending a bid adds its price to the sum.
pub proof fn lemma_bids_total_push(bids: Seq<Bid>, bid: Bid)
    ensures
        bids_total(bids.push(bid)) == bids_total(bids) + bid.price,
{
    assert(bids.push(bid).drop_last() =~= bids);
}

/// Removing a bid subtracts its price from the sum.
pub proof fn lemma_bids_total_remove(bids: Seq<Bid>, i: int)
    requires
        0 <= i < bids.len(),
    ensures
        bids_total(bids.remove(i)) == bids_total(bids) - bids[i].price,
    decreases bids.len(),
{
    if i == bids.len() - 1 {
        assert(bids.remove(i) =~= bids.drop_last());
    } else {
        let shorter = bids.drop_last();
        lemma_bids_total_remove(shorter, i);
        assert(bids.remove(i).drop_last() =~= shorter.remove(i));
        assert(bids.remove(i).last() == bids.last());
    }
}

/// No single bid's price exceeds the sum.
pub proof fn lemma_bids_total_bounds_each(bids: Seq<Bid>, i: int)
    requires
        0 <= i < bids.len(),
    ensures
        bids[i].price <= bids_total(bids),
{
    lemma_bids_total_remove(bids, i);
    lemma_bids_total_nonneg(bids.remove(i));
}

/// A sum of offers' bid sums is never negative.
pub proof fn lemma_outstanding_nonneg(offers: Seq<Offer>)
    ensures
        outstanding_total(offers) >= 0,
    decreases offers.len(),
{
    if offers.len() > 0 {
        lemma_outstanding_nonneg(offers.drop_last());
        lemma_bids_total_nonneg(offers.last().bids@);
    }
}

/// Appending an offer adds its bid sum to the total.
pub proof fn lemma_outstanding_push(offers: Seq<Offer>, offer: Offer)
    ensures
        outstanding_total(offers.push(offer)) == outstanding_total(offers) + bids_total(
            offer.bids@,
        ),
{
    assert(offers.push(offer).drop_last() =~= offers);
}

/// Overwriting one offer changes the total by the difference of the two
/// bid sums.
pub proof fn lemma_outstanding_update(offers: Seq<Offer>, i: int, offer: Offer)
    requires
        0 <= i < offers.len(),
    ensures
        outstanding_total(offers.update(i, offer)) == outstanding_total(offers) - bids_total(
            offers[i].bids@,
        ) + bids_total(offer.bids@),
    decreases offers.len(),
{
    if i == offers.len() - 1 {
        assert(offers.update(i, offer).drop_last() =~= offers.drop_last());
        assert(offers.update(i, offer).last() == offer);
    } else {
        let shorter = offers.drop_last();
        lemma_outstanding_update(shorter, i, offer);
        assert(offers.update(i, offer).drop_last() =~= shorter.update(i, offer));
        assert(offers.update(i, offer).last() == offers.last());
    }
}

/// No single offer's bid sum exceeds the total.
pub proof fn lemma_outstanding_bounds_each(offers: Seq<Offer>, i: int)
    requires
        0 <= i < offers.len(),
    ensures
        bids_total(offers[i].bids@) <= outstanding_total(offers),
    decreases offers.len(),
{
    if i == offers.len() - 1 {
        lemma_outstanding_nonneg(offers.drop_last());
    } else {
        lemma_outstanding_bounds_each(offers.drop_last(), i);
        lemma_bids_total_nonneg(offers.last().bids@);
        assert(offers.drop_last()[i] == offers[i]);
    }
}

} // verus!
