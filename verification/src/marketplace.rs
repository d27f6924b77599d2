use vstd::prelude::*;

use crate::address::Address;
use crate::auction::Auction;
use crate::error::Error;
use crate::event::Event;
use crate::ledger::balance_in;
use crate::ledger::balances_agree_except;
use crate::ledger::balances_agree_except2;
use crate::ledger::Ledger;
use crate::offer::Offer;
use crate::offers::offers_unique_bidders;
use crate::offers::offers_unique_keys;
use crate::order::Order;
use crate::orders::orders_unique_keys;
use crate::registry::owner_in;
use crate::registry::Registry;
use crate::sums::outstanding_total;
use vstd::arithmetic::div_mod::lemma_fundamental_div_mod;
use vstd::arithmetic::div_mod::lemma_mod_bound;

verus! {

/// What the result slot holds: the record a completed operation left
/// behind for retrieval.
#[derive(Clone, Debug)]
pub enum StoredResult {
    Order(Order),
    Offer(Offer),
    Auction(Auction),
}

/// One marketplace instance: its configuration, its cached escrow-balance
/// snapshot, its order and offer stores, its event log and its result
/// slot.
#[derive(Clone, Debug)]
pub struct Marketplace {
    /// The contract-package identity of this instance; the escrow owner
    /// recorded in the token registry.
    pub package: u64,
    /// The platform fee in parts per 1000; 25 means 2.5 percent.
    pub fee: u128,
    /// The account that receives the fee share of every settlement.
    pub treasury_wallet: u64,
    /// The cached snapshot of the escrow purse's balance; funds deposited
    /// since the snapshot are what a paid entry point may claim.
    pub purse_balance: u128,
    /// The order records, one per listed token.
    pub orders: Vec<Order>,
    /// The offer records, one per token with standing bids.
    pub offers: Vec<Offer>,
    /// The event log.
    pub events: Vec<Event>,
    /// The last stored result.
    pub result: Option<StoredResult>,
}

/// The seller's part of a settled `amount` under fee rate `fee`:
/// `floor(amount * (1000 - fee) / 1000)`.
pub open spec fn seller_share(amount: u128, fee: u128) -> int {
    (amount * (1000 - fee)) / 1000
}

/// The treasury's part of a settled `amount` under fee rate `fee`:
/// `floor(amount * fee / 1000)`.
pub open spec fn treasury_share(amount: u128, fee: u128) -> int {
    (amount * fee) / 1000
}

/// Whether the checked fee arithmetic on `amount` goes through: the rate
/// is at most 1000 and neither product overflows.
pub open spec fn fee_math_ok(amount: u128, fee: u128) -> bool {
    &&& fee <= 1000
    &&& amount * (1000 - fee) <= u128::MAX
    &&& amount * fee <= u128::MAX
}

/// Fee-split correctness: under a fee rate of at most 1000 both shares are
/// non-negative and together never exceed the settled amount; the
/// truncation remainder, when the products are not multiples of 1000, is
/// paid to nobody.
pub proof fn lemma_fee_split_bounds(amount: u128, fee: u128)
    requires
        fee <= 1000,
    ensures
        0 <= seller_share(amount, fee),
        0 <= treasury_share(amount, fee),
        seller_share(amount, fee) + treasury_share(amount, fee) <= amount,
{
    let a = amount as int;
    let f = fee as int;
    let x = a * (1000 - f);
    let y = a * f;
    assert(x >= 0 && y >= 0 && x + y == 1000 * a) by (nonlinear_arith)
        requires
            0 <= a,
            0 <= f <= 1000,
            x == a * (1000 - f),
            y == a * f,
    ;
    lemma_fundamental_div_mod(x, 1000);
    lemma_fundamental_div_mod(y, 1000);
    lemma_mod_bound(x, 1000);
    lemma_mod_bound(y, 1000);
}

impl Marketplace {
    /// Structural well-formedness: one order record per token, one offer
    /// record per token, and one bid per bidder within every offer.
    pub open spec fn wf(self) -> bool {
        &&& orders_unique_keys(self.orders@)
        &&& offers_unique_keys(self.offers@)
        &&& offers_unique_bidders(self.offers@)
    }

    /// The escrow custody invariant: the registry records this instance's
    /// package as owner of every actively listed token.
    pub open spec fn custody_ok(self, registry: Registry) -> bool {
        forall|i: int|
            0 <= i < self.orders@.len() && (#[trigger] self.orders@[i]).is_active ==> owner_in(
                registry.tokens@,
                self.orders@[i].collection,
                self.orders@[i].token_id,
            ) == Some(Address::ContractPackage(self.package))
    }

    /// The escrow accounting invariant: the cached snapshot covers every
    /// standing bid, and the purse holds at least the snapshot.  The purse
    /// may exceed the snapshot by exactly what was deposited since.
    pub open spec fn escrow_ok(self, ledger: Ledger) -> bool {
        &&& outstanding_total(self.offers@) <= self.purse_balance as int
        &&& self.purse_balance <= ledger.escrow
    }

    /// A freshly installed marketplace: the default fee of 25 parts per
    /// 1000, an empty purse snapshot and empty stores.
    pub fn new(package: u64, treasury_wallet: u64) -> (r: Marketplace)
        ensures
            r.package == package,
            r.fee == 25,
            r.treasury_wallet == treasury_wallet,
            r.purse_balance == 0,
            r.orders@ == Seq::<Order>::empty(),
            r.offers@ == Seq::<Offer>::empty(),
            r.events@ == Seq::<Event>::empty(),
            r.result is None,
            r.wf(),
    {
        Marketplace {
            package,
            fee: 25,
            treasury_wallet,
            purse_balance: 0,
            orders: Vec::new(),
            offers: Vec::new(),
            events: Vec::new(),
            result: None,
        }
    }

    /// Sets the fee rate and records the change.
    pub fn set_fee(&mut self, fee: u128)
        ensures
            *final(self) == (Marketplace { fee, events: final(self).events, ..*old(self) }),
            final(self).events@ == old(self).events@.push(Event::FeeChanged { fee }),
    {
        self.fee = fee;
        self.events.push(Event::FeeChanged { fee });
    }

    /// Sets the treasury wallet and records the change.
    pub fn set_treasury_wallet(&mut self, treasury_wallet: u64)
        ensures
            *final(self) == (Marketplace {
                treasury_wallet,
                events: final(self).events,
                ..*old(self)
            }),
            final(self).events@ == old(self).events@.push(
                Event::TreasuryWalletChanged { treasury_wallet },
            ),
    {
        self.treasury_wallet = treasury_wallet;
        self.events.push(Event::TreasuryWalletChanged { treasury_wallet });
    }

    /// Builds an auction record and stores it in the result slot.  The
    /// auction entity is scaffolding: nothing acts on it afterwards.
    pub fn create_auction(
        &mut self,
        caller: u64,
        collection: u64,
        token_id: u64,
        auction_type: u8,
        price: Option<u128>,
        start_time: u64,
        end_time: Option<u64>,
    )
        ensures
            *final(self) == (Marketplace { result: final(self).result, ..*old(self) }),
            match final(self).result {
                Some(StoredResult::Auction(auction)) => auction.offerer == caller
                    && auction.collection == collection && auction.token_id == token_id
                    && auction.auction_type == auction_type && auction.price == price
                    && auction.start_time == start_time && auction.end_time == end_time
                    && auction.bids@ == Seq::<crate::bid::Bid>::empty(),
                _ => false,
            },
    {
        let auction = Auction {
            offerer: caller,
            collection,
            token_id,
            auction_type,
            price,
            start_time,
            end_time,
            bids: Vec::new(),
        };
        self.result = Some(StoredResult::Auction(auction));
    }

    /// Validates that exactly `amount` was deposited into the escrow purse
    /// since the last snapshot, then refreshes the snapshot and returns the
    /// purse's balance.  A mismatch means the paid entry point was invoked
    /// without the companion funding step and is refused.
    pub fn checked_balance(&mut self, ledger: &Ledger, amount: u128) -> (r: Result<u128, Error>)
        ensures
            match r {
                Ok(balance) => old(self).purse_balance + amount == ledger.escrow && balance
                    == ledger.escrow && *final(self) == (Marketplace {
                    purse_balance: ledger.escrow,
                    ..*old(self)
                }),
                Err(e) => e == Error::PermissionDenied && old(self).purse_balance + amount
                    != ledger.escrow && *final(self) == *old(self),
            },
    {
        if amount <= u128::MAX - self.purse_balance && self.purse_balance + amount
            == ledger.escrow {
            self.purse_balance = ledger.escrow;
            Ok(ledger.escrow)
        } else {
            Err(Error::PermissionDenied)
        }
    }

    /// Moves `amount` out of the escrow purse to `account` and refreshes
    /// the snapshot.  An escrow purse holding less than `amount` cannot
    /// pay; a payout that would overflow the recipient's balance is
    /// refused.
    pub fn transfer(&mut self, ledger: &mut Ledger, account: u64, amount: u128) -> (r: Result<
        (),
        Error,
    >)
        ensures
            match r {
                Ok(()) => old(ledger).escrow >= amount && balance_in(
                    old(ledger).accounts@,
                    account,
                ) + amount <= u128::MAX && final(ledger).escrow == old(ledger).escrow - amount
                    && balance_in(final(ledger).accounts@, account) == balance_in(
                    old(ledger).accounts@,
                    account,
                ) + amount && balances_agree_except(
                    old(ledger).accounts@,
                    final(ledger).accounts@,
                    account,
                ) && *final(self) == (Marketplace {
                    purse_balance: final(ledger).escrow,
                    ..*old(self)
                }),
                Err(e) => *final(self) == *old(self) && *final(ledger) == *old(ledger) && if old(
                    ledger,
                ).escrow < amount {
                    e == Error::InsufficientBalance
                } else {
                    e == Error::Overflow && balance_in(old(ledger).accounts@, account) + amount
                        > u128::MAX
                },
            },
    {
        if ledger.escrow < amount {
            return Err(Error::InsufficientBalance);
        }
        let balance = ledger.balance_of(account);
        if balance > u128::MAX - amount {
            return Err(Error::Overflow);
        }
        ledger.pay(account, amount);
        self.purse_balance = ledger.escrow;
        Ok(())
    }

    /// Whether a fee-split settlement of `amount` to `account` goes
    /// through: the fee arithmetic is checked, the escrow purse covers
    /// both shares, and neither recipient's balance overflows.
    pub open spec fn transfer_with_fee_ok(self, ledger: Ledger, account: u64, amount: u128)
        -> bool {
        &&& fee_math_ok(amount, self.fee)
        &&& ledger.escrow >= seller_share(amount, self.fee) + treasury_share(amount, self.fee)
        &&& balance_in(ledger.accounts@, account) + seller_share(amount, self.fee) <= u128::MAX
        &&& if self.treasury_wallet == account {
            balance_in(ledger.accounts@, account) + seller_share(amount, self.fee)
                + treasury_share(amount, self.fee) <= u128::MAX
        } else {
            balance_in(ledger.accounts@, self.treasury_wallet) + treasury_share(amount, self.fee)
                <= u128::MAX
        }
    }

    /// The error a refused fee-split settlement reports, by the first
    /// check that fails.
    pub open spec fn transfer_with_fee_err(self, ledger: Ledger, account: u64, amount: u128)
        -> Error {
        if !fee_math_ok(amount, self.fee) {
            Error::Overflow
        } else if ledger.escrow < seller_share(amount, self.fee) {
            Error::InsufficientBalance
        } else if balance_in(ledger.accounts@, account) + seller_share(amount, self.fee)
            > u128::MAX {
            Error::Overflow
        } else if ledger.escrow - seller_share(amount, self.fee) < treasury_share(
            amount,
            self.fee,
        ) {
            Error::InsufficientBalance
        } else {
            Error::Overflow
        }
    }

    /// What a completed fee-split settlement of `amount` to `account` did
    /// to the marketplace and the ledger.
    pub open spec fn transfer_with_fee_post(
        pre: Marketplace,
        l0: Ledger,
        post: Marketplace,
        l1: Ledger,
        account: u64,
        amount: u128,
    ) -> bool {
        let s = seller_share(amount, pre.fee);
        let t = treasury_share(amount, pre.fee);
        &&& l1.escrow == l0.escrow - s - t
        &&& if account == pre.treasury_wallet {
            balance_in(l1.accounts@, account) == balance_in(l0.accounts@, account) + s + t
        } else {
            balance_in(l1.accounts@, account) == balance_in(l0.accounts@, account) + s
                && balance_in(l1.accounts@, pre.treasury_wallet) == balance_in(
                l0.accounts@,
                pre.treasury_wallet,
            ) + t
        }
        &&& balances_agree_except2(l0.accounts@, l1.accounts@, account, pre.treasury_wallet)
        &&& post == (Marketplace { purse_balance: l1.escrow, ..pre })
    }

    /// Splits `amount` into the seller's and the treasury's share by the
    /// current fee rate and pays both out of the escrow purse, refreshing
    /// the snapshot.  The two payouts happen together or not at all; the
    /// truncation remainder stays in the purse.
    pub fn transfer_with_fee(&mut self, ledger: &mut Ledger, account: u64, amount: u128) -> (r:
        Result<(), Error>)
        ensures
            match r {
                Ok(()) => old(self).transfer_with_fee_ok(*old(ledger), account, amount)
                    && Marketplace::transfer_with_fee_post(
                    *old(self),
                    *old(ledger),
                    *final(self),
                    *final(ledger),
                    account,
                    amount,
                ),
                Err(e) => *final(self) == *old(self) && *final(ledger) == *old(ledger)
                    && !old(self).transfer_with_fee_ok(*old(ledger), account, amount)
                    && e == old(self).transfer_with_fee_err(*old(ledger), account, amount),
            },
    {
        if self.fee > 1000 {
            return Err(Error::Overflow);
        }
        proof {
            lemma_fee_split_bounds(amount, self.fee);
        }
        let rest: u128 = 1000 - self.fee;
        let to_account: u128 = match amount.checked_mul(rest) {
            Some(x) => x / 1000,
            None => {
                return Err(Error::Overflow);
            },
        };
        let to_treasury: u128 = match amount.checked_mul(self.fee) {
            Some(y) => y / 1000,
            None => {
                return Err(Error::Overflow);
            },
        };
        if ledger.escrow < to_account {
            return Err(Error::InsufficientBalance);
        }
        let balance = ledger.balance_of(account);
        if balance > u128::MAX - to_account {
            return Err(Error::Overflow);
        }
        if ledger.escrow - to_account < to_treasury {
            return Err(Error::InsufficientBalance);
        }
        let treasury = self.treasury_wallet;
        if treasury == account {
            if to_treasury > u128::MAX - balance - to_account {
                return Err(Error::Overflow);
            }
        } else {
            let treasury_balance = ledger.balance_of(treasury);
            if treasury_balance > u128::MAX - to_treasury {
                return Err(Error::Overflow);
            }
        }
        ledger.pay(account, to_account);
        ledger.pay(treasury, to_treasury);
        self.purse_balance = ledger.escrow;
        Ok(())
    }
}

} // verus!
