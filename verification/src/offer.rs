use vstd::prelude::*;

use crate::bid::Bid;

verus! {

/// The collected bids on one token.
///
/// An offer record is created when the first bid on a token arrives and
/// keeps one entry per distinct bidder: placing a second bid replaces the
/// bidder's earlier one.
#[derive(Clone, Debug)]
pub struct Offer {
    /// The token registry (collection) the token belongs to.
    pub collection: u64,
    /// The token's identifier within its collection.
    pub token_id: u64,
    /// The standing bids, oldest first; at most one per distinct bidder.
    pub bids: Vec<Bid>,
}

/// Whether some bid in `bids` was placed by `account`.
pub open spec fn has_bid_by(bids: Seq<Bid>, account: u64) -> bool {
    exists|i: int| 0 <= i < bids.len() && bids[i].offerer == account
}

/// The position of `account`'s first bid in `bids`.
pub open spec fn bid_index_by(bids: Seq<Bid>, account: u64) -> int {
    choose|i: int|
        0 <= i < bids.len() && bids[i].offerer == account && (forall|j: int|
            0 <= j < i ==> bids[j].offerer != account)
}

/// `bids` without `account`'s first bid; unchanged when the account has no
/// standing bid.
pub open spec fn remove_bid_by(bids: Seq<Bid>, account: u64) -> Seq<Bid> {
    if has_bid_by(bids, account) {
        bids.remove(bid_index_by(bids, account))
    } else {
        bids
    }
}

/// No two bids share a bidder.
pub open spec fn bids_distinct(bids: Seq<Bid>) -> bool {
    forall|i: int, j: int|
        0 <= i < bids.len() && 0 <= j < bids.len() && i != j ==> (#[trigger] bids[i]).offerer != (
        #[trigger] bids[j]).offerer
}

/// A first match at `j` pins down `bid_index_by`.
pub proof fn lemma_bid_first_match(bids: Seq<Bid>, j: int, account: u64)
    requires
        0 <= j < bids.len(),
        bids[j].offerer == account,
        forall|k: int| 0 <= k < j ==> bids[k].offerer != account,
    ensures
        has_bid_by(bids, account),
        bid_index_by(bids, account) == j,
{
    assert(has_bid_by(bids, account));
    assert(exists|i: int|
        0 <= i < bids.len() && bids[i].offerer == account && (forall|k: int|
            0 <= k < i ==> bids[k].offerer != account)) by {
        assert(0 <= j < bids.len() && bids[j].offerer == account && (forall|k: int|
            0 <= k < j ==> bids[k].offerer != account));
    }
    let f = bid_index_by(bids, account);
    if f < j {
        assert(bids[f].offerer != account);
    } else if j < f {
        assert(bids[j].offerer != account);
    }
}

/// Removing a bid keeps bidders distinct.
pub proof fn lemma_bids_distinct_remove(bids: Seq<Bid>, i: int)
    requires
        bids_distinct(bids),
        0 <= i < bids.len(),
    ensures
        bids_distinct(bids.remove(i)),
{
    let cut = bids.remove(i);
    bids.remove_ensures(i);
    assert forall|a: int, b: int|
        0 <= a < cut.len() && 0 <= b < cut.len() && a != b implies (#[trigger] cut[a]).offerer != (
    #[trigger] cut[b]).offerer by {
        let a0 = if a < i {
            a
        } else {
            a + 1
        };
        let b0 = if b < i {
            b
        } else {
            b + 1
        };
        assert(cut[a] == bids[a0]);
        assert(cut[b] == bids[b0]);
    }
}

/// After removing a bidder's only bid, the bidder has no bid left.
pub proof fn lemma_no_bid_after_remove(bids: Seq<Bid>, i: int, account: u64)
    requires
        bids_distinct(bids),
        0 <= i < bids.len(),
        bids[i].offerer == account,
    ensures
        !has_bid_by(bids.remove(i), account),
{
    let cut = bids.remove(i);
    bids.remove_ensures(i);
    if has_bid_by(cut, account) {
        let w = choose|k: int| 0 <= k < cut.len() && cut[k].offerer == account;
        let w0 = if w < i {
            w
        } else {
            w + 1
        };
        assert(cut[w] == bids[w0]);
        assert(bids[w0].offerer == bids[i].offerer && w0 != i);
    }
}

/// Appending a bid by a bidder without one keeps bidders distinct.
pub proof fn lemma_bids_distinct_push(bids: Seq<Bid>, bid: Bid)
    requires
        bids_distinct(bids),
        !has_bid_by(bids, bid.offerer),
    ensures
        bids_distinct(bids.push(bid)),
{
    let ext = bids.push(bid);
    assert forall|a: int, b: int|
        0 <= a < ext.len() && 0 <= b < ext.len() && a != b implies (#[trigger] ext[a]).offerer != (
    #[trigger] ext[b]).offerer by {
        if a < bids.len() && b < bids.len() {
        } else if a < bids.len() {
            assert(bids[a].offerer != bid.offerer);
        } else {
            assert(bids[b].offerer != bid.offerer);
        }
    }
}

impl vstd::std_specs::cmp::PartialEqSpecImpl for Offer {
    open spec fn obeys_eq_spec() -> bool {
        true
    }

    open spec fn eq_spec(&self, other: &Offer) -> bool {
        &&& self.collection == other.collection
        &&& self.token_id == other.token_id
        &&& self.bids@.len() == other.bids@.len()
        &&& forall|i: int| 0 <= i < self.bids@.len() ==> self.bids@[i] == other.bids@[i]
    }
}

impl PartialEq for Offer {
    /// Two offers are equal when the key fields agree and the bid lists
    /// are equal: the same length, with the same bid at every position.
    fn eq(&self, other: &Offer) -> (r: bool) {
        if self.collection != other.collection || self.token_id != other.token_id {
            return false;
        }
        if self.bids.len() != other.bids.len() {
            return false;
        }
        let mut index: usize = 0;
        while index < self.bids.len()
            invariant
                self.bids@.len() == other.bids@.len(),
                index <= self.bids@.len(),
                forall|k: int| 0 <= k < index ==> self.bids@[k] == other.bids@[k],
            decreases self.bids@.len() - index,
        {
            if self.bids[index] != other.bids[index] {
                return false;
            }
            index += 1;
        }
        true
    }
}

impl Offer {
    /// Replaces `account`'s standing bid with `bid`, or appends `bid` as
    /// the account's first one.
    pub(crate) fn replace_bid(&mut self, account: u64, bid: Bid)
        requires
            bids_distinct(old(self).bids@),
            bid.offerer == account,
        ensures
            final(self).collection == old(self).collection,
            final(self).token_id == old(self).token_id,
            final(self).bids@ == remove_bid_by(old(self).bids@, account).push(bid),
            bids_distinct(final(self).bids@),
            crate::sums::bids_total(final(self).bids@) <= crate::sums::bids_total(
                old(self).bids@,
            ) + bid.price,
    {
        let bid_index = self.get_bid_index_by_account(account);
        match bid_index {
            Some(j) => {
                proof {
                    lemma_bid_first_match(self.bids@, j as int, account);
                    crate::sums::lemma_bids_total_remove(self.bids@, j as int);
                    lemma_bids_distinct_remove(self.bids@, j as int);
                    lemma_no_bid_after_remove(self.bids@, j as int, account);
                }
                self.bids.remove(j);
            },
            None => {},
        }
        proof {
            crate::sums::lemma_bids_total_push(remove_bid_by(old(self).bids@, account), bid);
            lemma_bids_distinct_push(remove_bid_by(old(self).bids@, account), bid);
        }
        self.bids.push(bid);
    }
}

/// Returns a copy of the bids.
pub(crate) fn copy_bids(bids: &Vec<Bid>) -> (r: Vec<Bid>)
    ensures
        r@ == bids@,
{
    let mut r: Vec<Bid> = Vec::new();
    let mut index: usize = 0;
    while index < bids.len()
        invariant
            index <= bids@.len(),
            r@ == bids@.take(index as int),
        decreases bids@.len() - index,
    {
        r.push(bids[index]);
        proof {
            assert(r@ =~= bids@.take(index as int + 1));
        }
        index += 1;
    }
    proof {
        assert(bids@.take(bids@.len() as int) =~= bids@);
    }
    r
}

impl Offer {
    /// Returns the position of `account`'s first bid, or `None` when the
    /// account has no standing bid on this token.
    pub fn get_bid_index_by_account(&self, account: u64) -> (r: Option<usize>)
        ensures
            match r {
                Some(i) => i < self.bids@.len() && self.bids@[i as int].offerer == account
                    && (forall|j: int| 0 <= j < i ==> self.bids@[j].offerer != account),
                None => !has_bid_by(self.bids@, account),
            },
            r is Some <==> has_bid_by(self.bids@, account),
    {
        let mut index: usize = 0;
        while index < self.bids.len()
            invariant
                index <= self.bids@.len(),
                forall|j: int| 0 <= j < index ==> self.bids@[j].offerer != account,
            decreases self.bids@.len() - index,
        {
            if self.bids[index].offerer == account {
                return Some(index);
            }
            index += 1;
        }
        None
    }
}

} // verus!
