use vstd::prelude::*;

use crate::address::Address;
use crate::error::Error;
use crate::event::Event;
use crate::ledger::balance_in;
use crate::ledger::balances_agree_except2;
use crate::ledger::Ledger;
use crate::marketplace::lemma_fee_split_bounds;
use crate::marketplace::seller_share;
use crate::marketplace::treasury_share;
use crate::marketplace::Marketplace;
use crate::marketplace::StoredResult;
use crate::order::Order;
use crate::registry::approved_for;
use crate::registry::owner_in;
use crate::registry::token_in;
use crate::registry::tokens_agree_except;
use crate::registry::Registry;
use crate::registry::TokenRecord;

verus! {

/// The record of the listing of token `(collection, token_id)`: its first
/// entry, if any.
pub open spec fn order_in(orders: Seq<Order>, collection: u64, token_id: u64) -> Option<Order>
    decreases orders.len(),
{
    if orders.len() == 0 {
        None
    } else if orders[0].collection == collection && orders[0].token_id == token_id {
        Some(orders[0])
    } else {
        order_in(orders.drop_first(), collection, token_id)
    }
}

/// Whether token `(collection, token_id)` has an order record at all,
/// active or not.
pub open spec fn has_order(orders: Seq<Order>, collection: u64, token_id: u64) -> bool {
    exists|i: int|
        0 <= i < orders.len() && orders[i].collection == collection && orders[i].token_id
            == token_id
}

/// Whether token `(collection, token_id)` is actively listed.
pub open spec fn has_active_order(orders: Seq<Order>, collection: u64, token_id: u64) -> bool {
    match order_in(orders, collection, token_id) {
        Some(order) => order.is_active,
        None => false,
    }
}

/// Every token but `(collection, token_id)` has the same order record in
/// `o1` as in `o0`.
pub open spec fn orders_agree_except(
    o0: Seq<Order>,
    o1: Seq<Order>,
    collection: u64,
    token_id: u64,
) -> bool {
    forall|c: u64, t: u64|
        c != collection || t != token_id ==> order_in(o1, c, t) == order_in(o0, c, t)
}

/// No two order records share a token.
pub open spec fn orders_unique_keys(orders: Seq<Order>) -> bool {
    forall|i: int, j: int|
        0 <= i < orders.len() && 0 <= j < orders.len() && i != j ==> !((#[trigger] orders[i]).collection
            == (#[trigger] orders[j]).collection && orders[i].token_id == orders[j].token_id)
}

/// A first-match entry is the token's order record.
pub proof fn lemma_order_first_match(orders: Seq<Order>, i: int)
    requires
        0 <= i < orders.len(),
        forall|j: int|
            0 <= j < i ==> !(orders[j].collection == orders[i].collection && orders[j].token_id
                == orders[i].token_id),
    ensures
        order_in(orders, orders[i].collection, orders[i].token_id) == Some(orders[i]),
    decreases i,
{
    if i > 0 {
        let rest = orders.drop_first();
        assert forall|j: int| 0 <= j < i - 1 implies !((#[trigger] rest[j]).collection == rest[i
            - 1].collection && rest[j].token_id == rest[i - 1].token_id) by {
            assert(rest[j] == orders[j + 1]);
        }
        lemma_order_first_match(rest, i - 1);
    }
}

/// A token without an entry has no order record.
pub proof fn lemma_order_no_match(orders: Seq<Order>, collection: u64, token_id: u64)
    requires
        !has_order(orders, collection, token_id),
    ensures
        order_in(orders, collection, token_id) is None,
    decreases orders.len(),
{
    if orders.len() > 0 {
        let rest = orders.drop_first();
        assert(!has_order(rest, collection, token_id)) by {
            if has_order(rest, collection, token_id) {
                let w = choose|i: int|
                    0 <= i < rest.len() && rest[i].collection == collection && rest[i].token_id
                        == token_id;
                assert(orders[w + 1].collection == collection && orders[w + 1].token_id
                    == token_id);
            }
        }
        lemma_order_no_match(rest, collection, token_id);
    }
}

/// Overwriting a token's first-match entry with a record for the same
/// token sets that token's record and no other.
pub proof fn lemma_order_update(orders: Seq<Order>, i: int, order: Order)
    requires
        0 <= i < orders.len(),
        order.collection == orders[i].collection,
        order.token_id == orders[i].token_id,
        forall|j: int|
            0 <= j < i ==> !(orders[j].collection == orders[i].collection && orders[j].token_id
                == orders[i].token_id),
    ensures
        order_in(orders.update(i, order), order.collection, order.token_id) == Some(order),
        orders_agree_except(orders, orders.update(i, order), order.collection, order.token_id),
    decreases i,
{
    let upd = orders.update(i, order);
    if i == 0 {
        assert(upd.drop_first() =~= orders.drop_first());
        assert forall|c: u64, t: u64| c != order.collection || t != order.token_id implies
            order_in(upd, c, t) == order_in(orders, c, t) by {}
    } else {
        let rest = orders.drop_first();
        assert forall|j: int| 0 <= j < i - 1 implies !((#[trigger] rest[j]).collection == rest[i
            - 1].collection && rest[j].token_id == rest[i - 1].token_id) by {
            assert(rest[j] == orders[j + 1]);
        }
        assert(rest[i - 1] == orders[i]);
        lemma_order_update(rest, i - 1, order);
        assert(upd.drop_first() =~= rest.update(i - 1, order));
        assert(upd[0] == orders[0]);
        assert forall|c: u64, t: u64| c != order.collection || t != order.token_id implies
            order_in(upd, c, t) == order_in(orders, c, t) by {
            if !(orders[0].collection == c && orders[0].token_id == t) {
                assert(order_in(upd, c, t) == order_in(rest.update(i - 1, order), c, t));
                assert(order_in(orders, c, t) == order_in(rest, c, t));
            }
        }
    }
}

/// Appending an entry for a token without one sets that token's record and
/// no other.
pub proof fn lemma_order_push(orders: Seq<Order>, order: Order)
    requires
        !has_order(orders, order.collection, order.token_id),
    ensures
        order_in(orders.push(order), order.collection, order.token_id) == Some(order),
        orders_agree_except(orders, orders.push(order), order.collection, order.token_id),
    decreases orders.len(),
{
    let ext = orders.push(order);
    if orders.len() == 0 {
        assert(ext.drop_first() =~= orders);
        assert forall|c: u64, t: u64| c != order.collection || t != order.token_id implies
            order_in(ext, c, t) == order_in(orders, c, t) by {}
    } else {
        let rest = orders.drop_first();
        assert(!has_order(rest, order.collection, order.token_id)) by {
            if has_order(rest, order.collection, order.token_id) {
                let w = choose|i: int|
                    0 <= i < rest.len() && rest[i].collection == order.collection
                        && rest[i].token_id == order.token_id;
                assert(orders[w + 1].collection == order.collection && orders[w + 1].token_id
                    == order.token_id);
            }
        }
        lemma_order_push(rest, order);
        assert(ext.drop_first() =~= rest.push(order));
        assert(ext[0] == orders[0]);
        assert(!(orders[0].collection == order.collection && orders[0].token_id
            == order.token_id));
        assert forall|c: u64, t: u64| c != order.collection || t != order.token_id implies
            order_in(ext, c, t) == order_in(orders, c, t) by {
            if !(orders[0].collection == c && orders[0].token_id == t) {
                assert(order_in(ext, c, t) == order_in(rest.push(order), c, t));
                assert(order_in(orders, c, t) == order_in(rest, c, t));
            }
        }
    }
}

/// Overwriting an entry with a record for the same token keeps order keys
/// unique.
pub proof fn lemma_orders_unique_update(orders: Seq<Order>, i: int, order: Order)
    requires
        orders_unique_keys(orders),
        0 <= i < orders.len(),
        order.collection == orders[i].collection,
        order.token_id == orders[i].token_id,
    ensures
        orders_unique_keys(orders.update(i, order)),
{
    let upd = orders.update(i, order);
    assert forall|a: int, b: int|
        0 <= a < upd.len() && 0 <= b < upd.len() && a != b implies !((#[trigger] upd[a]).collection
        == (#[trigger] upd[b]).collection && upd[a].token_id == upd[b].token_id) by {
        assert(upd[a].collection == orders[a].collection && upd[a].token_id
            == orders[a].token_id);
        assert(upd[b].collection == orders[b].collection && upd[b].token_id
            == orders[b].token_id);
        assert(orders[a] == orders[a] && orders[b] == orders[b]);
        assert(!(orders[a].collection == orders[b].collection && orders[a].token_id
            == orders[b].token_id));
    }
}

/// Appending a record for a token without one keeps order keys unique.
pub proof fn lemma_orders_unique_push(orders: Seq<Order>, order: Order)
    requires
        orders_unique_keys(orders),
        !has_order(orders, order.collection, order.token_id),
    ensures
        orders_unique_keys(orders.push(order)),
{
    let ext = orders.push(order);
    assert forall|a: int, b: int|
        0 <= a < ext.len() && 0 <= b < ext.len() && a != b implies !((#[trigger] ext[a]).collection
        == (#[trigger] ext[b]).collection && ext[a].token_id == ext[b].token_id) by {
        if a < orders.len() && b < orders.len() {
            assert(!(orders[a].collection == orders[b].collection && orders[a].token_id
                == orders[b].token_id));
        } else if a < orders.len() {
            assert(!(orders[a].collection == order.collection && orders[a].token_id
                == order.token_id));
        } else {
            assert(!(orders[b].collection == order.collection && orders[b].token_id
                == order.token_id));
        }
    }
}

/// Returns the position of the token's first order entry, if it has one.
pub(crate) fn find_order(orders: &Vec<Order>, collection: u64, token_id: u64) -> (r: Option<
    usize,
>)
    ensures
        match r {
            Some(i) => i < orders@.len() && orders@[i as int].collection == collection
                && orders@[i as int].token_id == token_id && (forall|j: int|
                0 <= j < i ==> !(orders@[j].collection == collection && orders@[j].token_id
                    == token_id)),
            None => !has_order(orders@, collection, token_id),
        },
{
    let mut index: usize = 0;
    while index < orders.len()
        invariant
            index <= orders@.len(),
            forall|j: int|
                0 <= j < index ==> !(orders@[j].collection == collection && orders@[j].token_id
                    == token_id),
        decreases orders@.len() - index,
    {
        if orders[index].collection == collection && orders[index].token_id == token_id {
            return Some(index);
        }
        index += 1;
    }
    None
}

impl Marketplace {
    /// Whether a listing of token `(collection, token_id)` by `caller`
    /// goes through: the token is not actively listed, and the caller has
    /// approved this instance's package as spender for it.
    pub open spec fn create_order_ok(
        self,
        registry: Registry,
        caller: u64,
        collection: u64,
        token_id: u64,
    ) -> bool {
        &&& !has_active_order(self.orders@, collection, token_id)
        &&& approved_for(registry.tokens@, Address::Account(caller), collection, token_id)
            == Some(Address::ContractPackage(self.package))
    }

    /// The error a refused listing reports, by the first check that fails.
    pub open spec fn create_order_err(
        self,
        registry: Registry,
        caller: u64,
        collection: u64,
        token_id: u64,
    ) -> Error {
        if has_active_order(self.orders@, collection, token_id) {
            Error::OrderExist
        } else {
            Error::NotApproved
        }
    }

    /// What a completed listing did: the token sits in escrow under this
    /// instance's package with its approval consumed, an active order
    /// record stands for it, and the creation is logged.  Nothing else
    /// changed.
    pub open spec fn create_order_post(
        pre: Marketplace,
        r0: Registry,
        post: Marketplace,
        r1: Registry,
        caller: u64,
        collection: u64,
        token_id: u64,
        price: u128,
    ) -> bool {
        &&& token_in(r1.tokens@, collection, token_id) == Some(
            TokenRecord {
                collection,
                token_id,
                owner: Address::ContractPackage(pre.package),
                approved: None::<Address>,
            },
        )
        &&& tokens_agree_except(r0.tokens@, r1.tokens@, collection, token_id)
        &&& order_in(post.orders@, collection, token_id) == Some(
            Order { collection, token_id, maker: caller, price, is_active: true },
        )
        &&& orders_agree_except(pre.orders@, post.orders@, collection, token_id)
        &&& post.events@ == pre.events@.push(
            Event::OrderCreated { offerer: caller, collection, token_id, price },
        )
        &&& post == (Marketplace { orders: post.orders, events: post.events, ..pre })
    }

    /// Lists token `(collection, token_id)` at `price`: pulls the token
    /// into escrow through the registry and records the active order.  The
    /// caller must have approved this instance's package as spender; after
    /// the pull the registry must record the package as owner.
    pub fn create_order(
        &mut self,
        registry: &mut Registry,
        caller: u64,
        collection: u64,
        token_id: u64,
        price: u128,
    ) -> (r: Result<(), Error>)
        requires
            old(self).wf(),
            old(self).custody_ok(*old(registry)),
        ensures
            final(self).wf(),
            final(self).custody_ok(*final(registry)),
            match r {
                Ok(()) => old(self).create_order_ok(*old(registry), caller, collection, token_id)
                    && Marketplace::create_order_post(
                    *old(self),
                    *old(registry),
                    *final(self),
                    *final(registry),
                    caller,
                    collection,
                    token_id,
                    price,
                ),
                Err(e) => *final(self) == *old(self) && *final(registry) == *old(registry)
                    && !old(self).create_order_ok(*old(registry), caller, collection, token_id)
                    && e == old(self).create_order_err(
                    *old(registry),
                    caller,
                    collection,
                    token_id,
                ),
            },
    {
        let find_result = find_order(&self.orders, collection, token_id);
        match find_result {
            Some(i) => {
                proof {
                    lemma_order_first_match(self.orders@, i as int);
                }
                if self.orders[i].is_active {
                    return Err(Error::OrderExist);
                }
            },
            None => {
                proof {
                    lemma_order_no_match(self.orders@, collection, token_id);
                }
            },
        }
        let me = Address::ContractPackage(self.package);
        let approved = registry.get_approved(Address::Account(caller), collection, token_id);
        let approved_ok = match approved {
            Some(Address::ContractPackage(p)) => p == self.package,
            _ => false,
        };
        if !approved_ok {
            return Err(Error::NotApproved);
        }
        let moved = registry.transfer_from(Address::Account(caller), me, collection, token_id);
        let token_owner = registry.owner_of(collection, token_id);
        let owner_ok = match token_owner {
            Some(Address::ContractPackage(p)) => p == self.package,
            _ => false,
        };
        if !owner_ok {
            // This guards against a registry that silently drops the
            // transfer; the registry model always records a transfer whose
            // approval was just verified, so the branch is provably dead.
            proof {
                assert(false);
            }
            return Err(Error::NotOwner);
        }
        let order = Order { collection, token_id, maker: caller, price, is_active: true };
        match find_result {
            Some(i) => {
                self.orders[i] = order;
                proof {
                    lemma_order_update(old(self).orders@, i as int, order);
                    lemma_orders_unique_update(old(self).orders@, i as int, order);
                }
            },
            None => {
                self.orders.push(order);
                proof {
                    lemma_order_push(old(self).orders@, order);
                    lemma_orders_unique_push(old(self).orders@, order);
                }
            },
        }
        self.events.push(Event::OrderCreated { offerer: caller, collection, token_id, price });
        proof {
            self.lemma_custody_after_key_change(
                *old(self),
                *old(registry),
                *registry,
                collection,
                token_id,
            );
        }
        Ok(())
    }

    /// Whether a cancellation of the listing of token `(collection,
    /// token_id)` by `caller` goes through: the token is actively listed
    /// and the caller is the order's maker.
    pub open spec fn cancel_order_ok(self, caller: u64, collection: u64, token_id: u64) -> bool {
        match order_in(self.orders@, collection, token_id) {
            Some(order) => order.is_active && order.maker == caller,
            None => false,
        }
    }

    /// The error a refused cancellation reports, by the first check that
    /// fails.
    pub open spec fn cancel_order_err(self, caller: u64, collection: u64, token_id: u64)
        -> Error {
        if !has_active_order(self.orders@, collection, token_id) {
            Error::OrderNotExist
        } else {
            Error::NotOrderMaker
        }
    }

    /// What a completed cancellation did: the token went back to its
    /// maker, the order record was flagged inactive, the record was stored
    /// as the result and the cancellation logged.  Nothing else changed.
    pub open spec fn cancel_order_post(
        pre: Marketplace,
        r0: Registry,
        post: Marketplace,
        r1: Registry,
        caller: u64,
        collection: u64,
        token_id: u64,
    ) -> bool {
        match order_in(pre.orders@, collection, token_id) {
            Some(order) => {
                let cancelled = Order { is_active: false, ..order };
                &&& order_in(post.orders@, collection, token_id) == Some(cancelled)
                &&& orders_agree_except(pre.orders@, post.orders@, collection, token_id)
                &&& token_in(r1.tokens@, collection, token_id) == Some(
                    TokenRecord {
                        collection,
                        token_id,
                        owner: Address::Account(order.maker),
                        approved: None::<Address>,
                    },
                )
                &&& tokens_agree_except(r0.tokens@, r1.tokens@, collection, token_id)
                &&& post.events@ == pre.events@.push(
                    Event::OrderCanceled { offerer: caller, collection, token_id },
                )
                &&& post.result == Some(StoredResult::Order(cancelled))
                &&& post == (Marketplace {
                    orders: post.orders,
                    events: post.events,
                    result: post.result,
                    ..pre
                })
            },
            None => false,
        }
    }

    /// Cancels the listing of token `(collection, token_id)`: returns the
    /// escrowed token to the order's maker, flags the record inactive,
    /// stores it as the result and logs the cancellation.  Only the maker
    /// can cancel, and only an active listing.
    pub fn cancel_order(
        &mut self,
        registry: &mut Registry,
        caller: u64,
        collection: u64,
        token_id: u64,
    ) -> (r: Result<(), Error>)
        requires
            old(self).wf(),
            old(self).custody_ok(*old(registry)),
        ensures
            final(self).wf(),
            final(self).custody_ok(*final(registry)),
            match r {
                Ok(()) => old(self).cancel_order_ok(caller, collection, token_id)
                    && Marketplace::cancel_order_post(
                    *old(self),
                    *old(registry),
                    *final(self),
                    *final(registry),
                    caller,
                    collection,
                    token_id,
                ),
                Err(e) => *final(self) == *old(self) && *final(registry) == *old(registry)
                    && !old(self).cancel_order_ok(caller, collection, token_id) && e == old(
                    self,
                ).cancel_order_err(caller, collection, token_id),
            },
    {
        let find_result = find_order(&self.orders, collection, token_id);
        match find_result {
            None => {
                proof {
                    lemma_order_no_match(self.orders@, collection, token_id);
                }
                Err(Error::OrderNotExist)
            },
            Some(i) => {
                proof {
                    lemma_order_first_match(self.orders@, i as int);
                }
                let order = self.orders[i];
                if !order.is_active {
                    return Err(Error::OrderNotExist);
                }
                if caller != order.maker {
                    return Err(Error::NotOrderMaker);
                }
                let moved = registry.transfer(
                    Address::ContractPackage(self.package),
                    Address::Account(order.maker),
                    collection,
                    token_id,
                );
                let cancelled = Order {
                    collection,
                    token_id,
                    maker: order.maker,
                    price: order.price,
                    is_active: false,
                };
                self.orders[i] = cancelled;
                self.result = Some(StoredResult::Order(cancelled));
                self.events.push(Event::OrderCanceled { offerer: caller, collection, token_id });
                proof {
                    lemma_order_update(old(self).orders@, i as int, cancelled);
                    lemma_orders_unique_update(old(self).orders@, i as int, cancelled);
                    self.lemma_custody_after_key_change(
                        *old(self),
                        *old(registry),
                        *registry,
                        collection,
                        token_id,
                    );
                }
                Ok(())
            },
        }
    }

    /// Whether a purchase of the listing of token `(collection,
    /// token_id)` goes through: the token is actively listed, exactly
    /// `amount` was deposited since the last snapshot, the amount is the
    /// order's price, the caller is the order's maker, and the fee-split
    /// settlement to the maker is feasible.
    pub open spec fn buy_order_ok(
        self,
        registry: Registry,
        ledger: Ledger,
        caller: u64,
        collection: u64,
        token_id: u64,
        amount: u128,
    ) -> bool {
        match order_in(self.orders@, collection, token_id) {
            Some(order) => {
                &&& order.is_active
                &&& self.purse_balance + amount == ledger.escrow
                &&& amount == order.price
                &&& caller == order.maker
                &&& self.transfer_with_fee_ok(ledger, order.maker, amount)
            },
            None => false,
        }
    }

    /// The error a refused purchase reports, by the first check that
    /// fails.
    pub open spec fn buy_order_err(
        self,
        registry: Registry,
        ledger: Ledger,
        caller: u64,
        collection: u64,
        token_id: u64,
        amount: u128,
    ) -> Error {
        match order_in(self.orders@, collection, token_id) {
            Some(order) => if !order.is_active {
                Error::OrderNotExist
            } else if self.purse_balance + amount != ledger.escrow {
                Error::PermissionDenied
            } else if amount != order.price {
                Error::NotValidAmount
            } else if caller != order.maker {
                Error::NotOrderMaker
            } else {
                self.transfer_with_fee_err(ledger, order.maker, amount)
            },
            None => Error::OrderNotExist,
        }
    }

    /// What a completed purchase did: the token went to the buyer, the
    /// price was settled to the maker and the treasury under the fee rate,
    /// the order record was flagged inactive and the purchase logged.
    /// Nothing else changed.
    pub open spec fn buy_order_post(
        pre: Marketplace,
        r0: Registry,
        l0: Ledger,
        post: Marketplace,
        r1: Registry,
        l1: Ledger,
        caller: u64,
        collection: u64,
        token_id: u64,
    ) -> bool {
        match order_in(pre.orders@, collection, token_id) {
            Some(order) => {
                let bought = Order { is_active: false, ..order };
                let s = seller_share(order.price, pre.fee);
                let t = treasury_share(order.price, pre.fee);
                &&& order_in(post.orders@, collection, token_id) == Some(bought)
                &&& orders_agree_except(pre.orders@, post.orders@, collection, token_id)
                &&& token_in(r1.tokens@, collection, token_id) == Some(
                    TokenRecord {
                        collection,
                        token_id,
                        owner: Address::Account(caller),
                        approved: None::<Address>,
                    },
                )
                &&& tokens_agree_except(r0.tokens@, r1.tokens@, collection, token_id)
                &&& l1.escrow == l0.escrow - s - t
                &&& if order.maker == pre.treasury_wallet {
                    balance_in(l1.accounts@, order.maker) == balance_in(l0.accounts@, order.maker)
                        + s + t
                } else {
                    balance_in(l1.accounts@, order.maker) == balance_in(l0.accounts@, order.maker)
                        + s && balance_in(l1.accounts@, pre.treasury_wallet) == balance_in(
                        l0.accounts@,
                        pre.treasury_wallet,
                    ) + t
                }
                &&& balances_agree_except2(
                    l0.accounts@,
                    l1.accounts@,
                    order.maker,
                    pre.treasury_wallet,
                )
                &&& post.purse_balance == l1.escrow
                &&& post.events@ == pre.events@.push(
                    Event::OrderBought { offerer: caller, collection, token_id, price:
                        order.price },
                )
                &&& post == (Marketplace {
                    purse_balance: post.purse_balance,
                    orders: post.orders,
                    events: post.events,
                    ..pre
                })
            },
            None => false,
        }
    }

    /// Buys the listed token `(collection, token_id)` for `amount`: after
    /// validating the deposit against the snapshot, sends the token to the
    /// caller and settles the price to the maker and the treasury under
    /// the fee rate.  The deposit must equal the price exactly; this
    /// revision additionally requires the caller to be the order's maker.
    pub fn buy_order(
        &mut self,
        registry: &mut Registry,
        ledger: &mut Ledger,
        caller: u64,
        collection: u64,
        token_id: u64,
        amount: u128,
    ) -> (r: Result<(), Error>)
        requires
            old(self).wf(),
            old(self).custody_ok(*old(registry)),
            old(self).escrow_ok(*old(ledger)),
        ensures
            final(self).wf(),
            final(self).custody_ok(*final(registry)),
            final(self).escrow_ok(*final(ledger)),
            match r {
                Ok(()) => old(self).buy_order_ok(
                    *old(registry),
                    *old(ledger),
                    caller,
                    collection,
                    token_id,
                    amount,
                ) && Marketplace::buy_order_post(
                    *old(self),
                    *old(registry),
                    *old(ledger),
                    *final(self),
                    *final(registry),
                    *final(ledger),
                    caller,
                    collection,
                    token_id,
                ),
                Err(e) => *final(self) == *old(self) && *final(registry) == *old(registry)
                    && *final(ledger) == *old(ledger) && !old(self).buy_order_ok(
                    *old(registry),
                    *old(ledger),
                    caller,
                    collection,
                    token_id,
                    amount,
                ) && e == old(self).buy_order_err(
                    *old(registry),
                    *old(ledger),
                    caller,
                    collection,
                    token_id,
                    amount,
                ),
            },
    {
        let find_result = find_order(&self.orders, collection, token_id);
        match find_result {
            None => {
                proof {
                    lemma_order_no_match(self.orders@, collection, token_id);
                }
                Err(Error::OrderNotExist)
            },
            Some(i) => {
                proof {
                    lemma_order_first_match(self.orders@, i as int);
                }
                let order = self.orders[i];
                if !order.is_active {
                    return Err(Error::OrderNotExist);
                }
                if !(amount <= u128::MAX - self.purse_balance && self.purse_balance + amount
                    == ledger.escrow) {
                    return Err(Error::PermissionDenied);
                }
                if amount != order.price {
                    return Err(Error::NotValidAmount);
                }
                if caller != order.maker {
                    return Err(Error::NotOrderMaker);
                }
                match self.transfer_with_fee(ledger, order.maker, amount) {
                    Err(e) => {
                        return Err(e);
                    },
                    Ok(()) => {},
                }
                proof {
                    crate::sums::lemma_outstanding_nonneg(self.offers@);
                    lemma_fee_split_bounds(amount, old(self).fee);
                }
                let moved = registry.transfer(
                    Address::ContractPackage(self.package),
                    Address::Account(caller),
                    collection,
                    token_id,
                );
                let bought = Order {
                    collection,
                    token_id,
                    maker: order.maker,
                    price: order.price,
                    is_active: false,
                };
                self.orders[i] = bought;
                self.events.push(
                    Event::OrderBought { offerer: caller, collection, token_id, price:
                        order.price },
                );
                proof {
                    lemma_order_update(old(self).orders@, i as int, bought);
                    lemma_orders_unique_update(old(self).orders@, i as int, bought);
                    self.lemma_custody_after_key_change(
                        *old(self),
                        *old(registry),
                        *registry,
                        collection,
                        token_id,
                    );
                }
                Ok(())
            },
        }
    }

    /// Custody carries over to a state whose order store and registry
    /// changed at most at token `(collection, token_id)`, provided that
    /// token's new order record, if active, is matched by package
    /// ownership.
    proof fn lemma_custody_after_key_change(
        self,
        pre: Marketplace,
        r0: Registry,
        r1: Registry,
        collection: u64,
        token_id: u64,
    )
        requires
            pre.wf(),
            pre.custody_ok(r0),
            self.package == pre.package,
            self.orders@.len() >= pre.orders@.len(),
            orders_agree_except(pre.orders@, self.orders@, collection, token_id),
            tokens_agree_except(r0.tokens@, r1.tokens@, collection, token_id),
            orders_unique_keys(self.orders@),
            // entries for other tokens are the same records at the same places
            forall|k: int|
                0 <= k < self.orders@.len() && !((#[trigger] self.orders@[k]).collection
                    == collection && self.orders@[k].token_id == token_id) ==> k
                    < pre.orders@.len() && self.orders@[k] == pre.orders@[k],
            // the changed token, if actively listed now, is in escrow now
            match order_in(self.orders@, collection, token_id) {
                Some(order) => order.is_active ==> owner_in(r1.tokens@, collection, token_id)
                    == Some(Address::ContractPackage(self.package)),
                None => true,
            },
        ensures
            self.custody_ok(r1),
    {
        assert forall|i: int|
            0 <= i < self.orders@.len() && (#[trigger] self.orders@[i]).is_active implies owner_in(
            r1.tokens@,
            self.orders@[i].collection,
            self.orders@[i].token_id,
        ) == Some(Address::ContractPackage(self.package)) by {
            let order = self.orders@[i];
            if order.collection == collection && order.token_id == token_id {
                let first = choose|f: int|
                    0 <= f < self.orders@.len() && self.orders@[f].collection == collection
                        && self.orders@[f].token_id == token_id && (forall|j: int|
                        0 <= j < f ==> !(self.orders@[j].collection == collection
                            && self.orders@[j].token_id == token_id));
                assert(exists|f: int|
                    0 <= f < self.orders@.len() && self.orders@[f].collection == collection
                        && self.orders@[f].token_id == token_id && (forall|j: int|
                        0 <= j < f ==> !(self.orders@[j].collection == collection
                            && self.orders@[j].token_id == token_id))) by {
                    lemma_first_match_exists(self.orders@, collection, token_id, i);
                }
                assert(first == i);
                lemma_order_first_match(self.orders@, i);
            } else {
                assert(pre.orders@[i].is_active);
                assert(owner_in(r0.tokens@, order.collection, order.token_id) == Some(
                    Address::ContractPackage(pre.package),
                ));
                assert(token_in(r1.tokens@, order.collection, order.token_id) == token_in(
                    r0.tokens@,
                    order.collection,
                    order.token_id,
                ));
            }
        }
    }
}

/// Among the entries for a token there is a first one.
pub proof fn lemma_first_match_exists(
    orders: Seq<Order>,
    collection: u64,
    token_id: u64,
    witness: int,
)
    requires
        0 <= witness < orders.len(),
        orders[witness].collection == collection,
        orders[witness].token_id == token_id,
    ensures
        exists|f: int|
            0 <= f < orders.len() && orders[f].collection == collection && orders[f].token_id
                == token_id && (forall|j: int|
                0 <= j < f ==> !(orders[j].collection == collection && orders[j].token_id
                    == token_id)),
    decreases witness,
{
    if forall|j: int|
        0 <= j < witness ==> !((#[trigger] orders[j]).collection == collection
            && orders[j].token_id == token_id) {
        assert(0 <= witness < orders.len() && orders[witness].collection == collection
            && orders[witness].token_id == token_id && (forall|j: int|
            0 <= j < witness ==> !(orders[j].collection == collection && orders[j].token_id
                == token_id)));
    } else {
        let earlier = choose|j: int|
            0 <= j < witness && (#[trigger] orders[j]).collection == collection
                && orders[j].token_id == token_id;
        lemma_first_match_exists(orders, collection, token_id, earlier);
    }
}

} // verus!
