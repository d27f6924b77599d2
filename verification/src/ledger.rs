use vstd::prelude::*;

use crate::error::Error;

verus! {

/// One account's currency holding.
#[derive(Clone, Copy, Debug, PartialEq, Eq, Structural)]
pub struct AccountBalance {
    /// The account.
    pub account: u64,
    /// The currency it holds.
    pub balance: u128,
}

/// The native-currency side of the ledger, seen from one marketplace
/// instance: the balance of the instance's escrow purse and the balances of
/// the ordinary accounts it pays out to or is funded from.
#[derive(Clone, Debug)]
pub struct Ledger {
    /// The currency held by the marketplace's escrow purse.
    pub escrow: u128,
    /// The ordinary accounts' balances; an absent account holds nothing.
    pub accounts: Vec<AccountBalance>,
}

/// The currency held by `account`: the balance of its first entry, or zero
/// when it has no entry.
pub open spec fn balance_in(accounts: Seq<AccountBalance>, account: u64) -> u128
    decreases accounts.len(),
{
    if accounts.len() == 0 {
        0
    } else if accounts[0].account == account {
        accounts[0].balance
    } else {
        balance_in(accounts.drop_first(), account)
    }
}

/// Whether `account` has an entry in `accounts`.
pub open spec fn has_account(accounts: Seq<AccountBalance>, account: u64) -> bool {
    exists|i: int| 0 <= i < accounts.len() && accounts[i].account == account
}

/// Every account but `except` holds the same currency in `a1` as in `a0`.
pub open spec fn balances_agree_except(
    a0: Seq<AccountBalance>,
    a1: Seq<AccountBalance>,
    except: u64,
) -> bool {
    forall|a: u64| a != except ==> balance_in(a1, a) == balance_in(a0, a)
}

/// Every account but `except1` and `except2` holds the same currency in
/// `a1` as in `a0`.
pub open spec fn balances_agree_except2(
    a0: Seq<AccountBalance>,
    a1: Seq<AccountBalance>,
    except1: u64,
    except2: u64,
) -> bool {
    forall|a: u64| a != except1 && a != except2 ==> balance_in(a1, a) == balance_in(a0, a)
}

/// The balance of a first-match entry is the account's balance.
pub proof fn lemma_balance_first_match(accounts: Seq<AccountBalance>, i: int)
    requires
        0 <= i < accounts.len(),
        forall|j: int| 0 <= j < i ==> accounts[j].account != accounts[i].account,
    ensures
        balance_in(accounts, accounts[i].account) == accounts[i].balance,
    decreases i,
{
    if i > 0 {
        let rest = accounts.drop_first();
        assert forall|j: int| 0 <= j < i - 1 implies (#[trigger] rest[j]).account != rest[i - 1].account by {
            assert(rest[j] == accounts[j + 1]);
        }
        lemma_balance_first_match(rest, i - 1);
    }
}

/// An account without an entry holds nothing.
pub proof fn lemma_balance_no_match(accounts: Seq<AccountBalance>, account: u64)
    requires
        !has_account(accounts, account),
    ensures
        balance_in(accounts, account) == 0,
    decreases accounts.len(),
{
    if accounts.len() > 0 {
        let rest = accounts.drop_first();
        assert(!has_account(rest, account)) by {
            if has_account(rest, account) {
                let w = choose|i: int| 0 <= i < rest.len() && rest[i].account == account;
                assert(accounts[w + 1].account == account);
            }
        }
        lemma_balance_no_match(rest, account);
    }
}

/// Overwriting an account's first-match entry sets that account's balance
/// and no other.
pub proof fn lemma_balance_update(accounts: Seq<AccountBalance>, i: int, entry: AccountBalance)
    requires
        0 <= i < accounts.len(),
        entry.account == accounts[i].account,
        forall|j: int| 0 <= j < i ==> accounts[j].account != accounts[i].account,
    ensures
        balance_in(accounts.update(i, entry), entry.account) == entry.balance,
        balances_agree_except(accounts, accounts.update(i, entry), entry.account),
    decreases i,
{
    let upd = accounts.update(i, entry);
    if i == 0 {
        assert(upd.drop_first() =~= accounts.drop_first());
        assert forall|a: u64| a != entry.account implies balance_in(upd, a) == balance_in(
            accounts,
            a,
        ) by {}
    } else {
        let rest = accounts.drop_first();
        assert forall|j: int| 0 <= j < i - 1 implies (#[trigger] rest[j]).account != rest[i - 1].account by {
            assert(rest[j] == accounts[j + 1]);
        }
        assert(rest[i - 1] == accounts[i]);
        lemma_balance_update(rest, i - 1, entry);
        assert(upd.drop_first() =~= rest.update(i - 1, entry));
        assert(upd[0] == accounts[0]);
        assert(balance_in(upd, entry.account) == entry.balance);
        assert forall|a: u64| a != entry.account implies balance_in(upd, a) == balance_in(
            accounts,
            a,
        ) by {
            if a != accounts[0].account {
                assert(balance_in(upd, a) == balance_in(rest.update(i - 1, entry), a));
                assert(balance_in(accounts, a) == balance_in(rest, a));
            }
        }
    }
}

/// Appending an entry for a fresh account sets that account's balance and
/// no other; for an account that already has an entry it changes nothing.
pub proof fn lemma_balance_push(accounts: Seq<AccountBalance>, entry: AccountBalance)
    ensures
        balance_in(accounts.push(entry), entry.account) == if has_account(
            accounts,
            entry.account,
        ) {
            balance_in(accounts, entry.account)
        } else {
            entry.balance
        },
        balances_agree_except(accounts, accounts.push(entry), entry.account),
    decreases accounts.len(),
{
    let ext = accounts.push(entry);
    if accounts.len() == 0 {
        assert(ext.drop_first() =~= accounts);
        assert forall|a: u64| a != entry.account implies balance_in(ext, a) == balance_in(
            accounts,
            a,
        ) by {}
    } else {
        let rest = accounts.drop_first();
        lemma_balance_push(rest, entry);
        assert(ext.drop_first() =~= rest.push(entry));
        assert(ext[0] == accounts[0]);
        if accounts[0].account == entry.account {
            assert(has_account(accounts, entry.account));
        } else {
            assert(has_account(accounts, entry.account) == has_account(rest, entry.account)) by {
                if has_account(rest, entry.account) {
                    let w = choose|i: int|
                        0 <= i < rest.len() && rest[i].account == entry.account;
                    assert(accounts[w + 1].account == entry.account);
                }
                if has_account(accounts, entry.account) {
                    let w = choose|i: int|
                        0 <= i < accounts.len() && accounts[i].account == entry.account;
                    assert(rest[w - 1].account == entry.account);
                }
            }
        }
        assert forall|a: u64| a != entry.account implies balance_in(ext, a) == balance_in(
            accounts,
            a,
        ) by {
            if a != accounts[0].account {
                assert(balance_in(ext, a) == balance_in(rest.push(entry), a));
                assert(balance_in(accounts, a) == balance_in(rest, a));
            }
        }
    }
}

/// Returns the position of `account`'s first entry, if it has one.
fn find_account(accounts: &Vec<AccountBalance>, account: u64) -> (r: Option<usize>)
    ensures
        match r {
            Some(i) => i < accounts@.len() && accounts@[i as int].account == account && (forall|
                j: int,
            | 0 <= j < i ==> accounts@[j].account != account),
            None => !has_account(accounts@, account),
        },
{
    let mut index: usize = 0;
    while index < accounts.len()
        invariant
            index <= accounts@.len(),
            forall|j: int| 0 <= j < index ==> accounts@[j].account != account,
        decreases accounts@.len() - index,
    {
        if accounts[index].account == account {
            return Some(index);
        }
        index += 1;
    }
    None
}

impl Ledger {
    /// Whether the escrow purse can pay `amount` to `account`: the purse
    /// holds enough, and the account's balance would not overflow.
    pub open spec fn can_pay(self, account: u64, amount: u128) -> bool {
        self.escrow >= amount && balance_in(self.accounts@, account) + amount <= u128::MAX
    }

    /// A ledger with an empty escrow purse and no account entries.
    pub fn new() -> (r: Ledger)
        ensures
            r.escrow == 0,
            r.accounts@ == Seq::<AccountBalance>::empty(),
    {
        Ledger { escrow: 0, accounts: Vec::new() }
    }

    /// Returns the currency held by `account`.
    pub fn balance_of(&self, account: u64) -> (r: u128)
        ensures
            r == balance_in(self.accounts@, account),
    {
        match find_account(&self.accounts, account) {
            Some(i) => {
                let r = self.accounts[i].balance;
                proof {
                    lemma_balance_first_match(self.accounts@, i as int);
                }
                r
            },
            None => {
                proof {
                    lemma_balance_no_match(self.accounts@, account);
                }
                0
            },
        }
    }

    /// Endows `account` with `amount` fresh currency, as the host ledger's
    /// genesis or an off-instance transfer would.
    pub fn fund_account(&mut self, account: u64, amount: u128) -> (r: Result<(), Error>)
        ensures
            match r {
                Ok(()) => balance_in(old(self).accounts@, account) + amount <= u128::MAX
                    && balance_in(final(self).accounts@, account) == balance_in(
                    old(self).accounts@,
                    account,
                ) + amount && balances_agree_except(
                    old(self).accounts@,
                    final(self).accounts@,
                    account,
                ) && final(self).escrow == old(self).escrow,
                Err(e) => e == Error::Overflow && balance_in(old(self).accounts@, account) + amount
                    > u128::MAX && *final(self) == *old(self),
            },
    {
        match find_account(&self.accounts, account) {
            Some(i) => {
                let bal = self.accounts[i].balance;
                proof {
                    lemma_balance_first_match(self.accounts@, i as int);
                }
                if amount > u128::MAX - bal {
                    return Err(Error::Overflow);
                }
                self.accounts[i] = AccountBalance { account, balance: bal + amount };
                proof {
                    lemma_balance_update(
                        old(self).accounts@,
                        i as int,
                        AccountBalance { account, balance: (bal + amount) as u128 },
                    );
                }
                Ok(())
            },
            None => {
                proof {
                    lemma_balance_no_match(self.accounts@, account);
                }
                self.accounts.push(AccountBalance { account, balance: amount });
                proof {
                    lemma_balance_push(
                        old(self).accounts@,
                        AccountBalance { account, balance: amount },
                    );
                }
                Ok(())
            },
        }
    }

    /// Moves `amount` from `account` into the escrow purse: the funding
    /// step a helper performs before invoking a paid entry point.
    pub fn deposit(&mut self, account: u64, amount: u128) -> (r: Result<(), Error>)
        ensures
            match r {
                Ok(()) => balance_in(old(self).accounts@, account) >= amount && old(self).escrow
                    + amount <= u128::MAX && final(self).escrow == old(self).escrow + amount
                    && balance_in(final(self).accounts@, account) == balance_in(
                    old(self).accounts@,
                    account,
                ) - amount && balances_agree_except(
                    old(self).accounts@,
                    final(self).accounts@,
                    account,
                ),
                Err(e) => *final(self) == *old(self) && if balance_in(
                    old(self).accounts@,
                    account,
                ) < amount {
                    e == Error::InsufficientBalance
                } else {
                    e == Error::Overflow && old(self).escrow + amount > u128::MAX
                },
            },
    {
        match find_account(&self.accounts, account) {
            Some(i) => {
                let bal = self.accounts[i].balance;
                proof {
                    lemma_balance_first_match(self.accounts@, i as int);
                }
                if bal < amount {
                    return Err(Error::InsufficientBalance);
                }
                if self.escrow > u128::MAX - amount {
                    return Err(Error::Overflow);
                }
                self.accounts[i] = AccountBalance { account, balance: bal - amount };
                self.escrow = self.escrow + amount;
                proof {
                    lemma_balance_update(
                        old(self).accounts@,
                        i as int,
                        AccountBalance { account, balance: (bal - amount) as u128 },
                    );
                }
                Ok(())
            },
            None => {
                proof {
                    lemma_balance_no_match(self.accounts@, account);
                }
                if amount > 0 {
                    return Err(Error::InsufficientBalance);
                }
                if self.escrow > u128::MAX - amount {
                    return Err(Error::Overflow);
                }
                self.escrow = self.escrow + amount;
                Ok(())
            },
        }
    }

    /// Moves `amount` out of the escrow purse into `account`, creating the
    /// account's entry if it has none.  Callers establish `can_pay` first.
    pub(crate) fn pay(&mut self, account: u64, amount: u128)
        requires
            old(self).can_pay(account, amount),
        ensures
            final(self).escrow == old(self).escrow - amount,
            balance_in(final(self).accounts@, account) == balance_in(old(self).accounts@, account)
                + amount,
            balances_agree_except(old(self).accounts@, final(self).accounts@, account),
    {
        match find_account(&self.accounts, account) {
            Some(i) => {
                let bal = self.accounts[i].balance;
                proof {
                    lemma_balance_first_match(self.accounts@, i as int);
                }
                self.accounts[i] = AccountBalance { account, balance: bal + amount };
                self.escrow = self.escrow - amount;
                proof {
                    lemma_balance_update(
                        old(self).accounts@,
                        i as int,
                        AccountBalance { account, balance: (bal + amount) as u128 },
                    );
                }
            },
            None => {
                proof {
                    lemma_balance_no_match(self.accounts@, account);
                }
                self.accounts.push(AccountBalance { account, balance: amount });
                self.escrow = self.escrow - amount;
                proof {
                    lemma_balance_push(
                        old(self).accounts@,
                        AccountBalance { account, balance: amount },
                    );
                }
            },
        }
    }
}

} // verus!
