use vstd::prelude::*;

use crate::address::Address;
use crate::error::Error;

verus! {

/// One token's entry in the external registry: who owns it and which single
/// spender, if any, its owner approved.
#[derive(Clone, Copy, Debug)]
pub struct TokenRecord {
    /// The token registry (collection) the token belongs to.
    pub collection: u64,
    /// The token's identifier within its collection.
    pub token_id: u64,
    /// The token's current owner.
    pub owner: Address,
    /// The spender the owner approved, cleared on every transfer.
    pub approved: Option<Address>,
}

/// The external token registry, modelled at its interface boundary:
/// ownership, approval and transfer of tokens.  The marketplace consults
/// and updates it but never trusts it blindly — after pulling a token into
/// escrow it checks the recorded owner again.
#[derive(Clone, Debug)]
pub struct Registry {
    /// The minted tokens.
    pub tokens: Vec<TokenRecord>,
}

/// The record of token `(collection, token_id)`: its first entry, if any.
pub open spec fn token_in(tokens: Seq<TokenRecord>, collection: u64, token_id: u64) -> Option<
    TokenRecord,
>
    decreases tokens.len(),
{
    if tokens.len() == 0 {
        None
    } else if tokens[0].collection == collection && tokens[0].token_id == token_id {
        Some(tokens[0])
    } else {
        token_in(tokens.drop_first(), collection, token_id)
    }
}

/// Whether token `(collection, token_id)` has an entry.
pub open spec fn has_token(tokens: Seq<TokenRecord>, collection: u64, token_id: u64) -> bool {
    exists|i: int|
        0 <= i < tokens.len() && tokens[i].collection == collection && tokens[i].token_id
            == token_id
}

/// The recorded owner of token `(collection, token_id)`, if it is minted.
pub open spec fn owner_in(tokens: Seq<TokenRecord>, collection: u64, token_id: u64) -> Option<
    Address,
> {
    match token_in(tokens, collection, token_id) {
        Some(record) => Some(record.owner),
        None => None,
    }
}

/// The spender approved on token `(collection, token_id)`, as answered to
/// `owner`: the recorded approval when `owner` is the recorded owner, and
/// nothing otherwise.
pub open spec fn approved_for(
    tokens: Seq<TokenRecord>,
    owner: Address,
    collection: u64,
    token_id: u64,
) -> Option<Address> {
    match token_in(tokens, collection, token_id) {
        Some(record) => if record.owner == owner {
            record.approved
        } else {
            None
        },
        None => None,
    }
}

/// Every token but `(collection, token_id)` has the same record in `t1` as
/// in `t0`.
pub open spec fn tokens_agree_except(
    t0: Seq<TokenRecord>,
    t1: Seq<TokenRecord>,
    collection: u64,
    token_id: u64,
) -> bool {
    forall|c: u64, t: u64|
        c != collection || t != token_id ==> token_in(t1, c, t) == token_in(t0, c, t)
}

/// The record a transfer leaves behind and what it reports: a minted token
/// owned by `from` moves to `to` with its approval cleared; any other call
/// changes nothing and reports that it moved nothing.
pub open spec fn transfer_effect(
    t0: Seq<TokenRecord>,
    t1: Seq<TokenRecord>,
    from: Address,
    to: Address,
    collection: u64,
    token_id: u64,
    moved: bool,
) -> bool {
    match token_in(t0, collection, token_id) {
        Some(record) => if record.owner == from {
            moved && token_in(t1, collection, token_id) == Some(
                TokenRecord { collection, token_id, owner: to, approved: None::<Address> },
            ) && tokens_agree_except(t0, t1, collection, token_id)
        } else {
            !moved && t1 == t0
        },
        None => !moved && t1 == t0,
    }
}

/// A first-match entry is the token's record.
pub proof fn lemma_token_first_match(tokens: Seq<TokenRecord>, i: int)
    requires
        0 <= i < tokens.len(),
        forall|j: int|
            0 <= j < i ==> !(tokens[j].collection == tokens[i].collection && tokens[j].token_id
                == tokens[i].token_id),
    ensures
        token_in(tokens, tokens[i].collection, tokens[i].token_id) == Some(tokens[i]),
    decreases i,
{
    if i > 0 {
        let rest = tokens.drop_first();
        assert forall|j: int| 0 <= j < i - 1 implies !((#[trigger] rest[j]).collection == rest[i
            - 1].collection && rest[j].token_id == rest[i - 1].token_id) by {
            assert(rest[j] == tokens[j + 1]);
        }
        lemma_token_first_match(rest, i - 1);
    }
}

/// A token without an entry has no record.
pub proof fn lemma_token_no_match(tokens: Seq<TokenRecord>, collection: u64, token_id: u64)
    requires
        !has_token(tokens, collection, token_id),
    ensures
        token_in(tokens, collection, token_id) is None,
    decreases tokens.len(),
{
    if tokens.len() > 0 {
        let rest = tokens.drop_first();
        assert(!has_token(rest, collection, token_id)) by {
            if has_token(rest, collection, token_id) {
                let w = choose|i: int|
                    0 <= i < rest.len() && rest[i].collection == collection && rest[i].token_id
                        == token_id;
                assert(tokens[w + 1].collection == collection && tokens[w + 1].token_id
                    == token_id);
            }
        }
        lemma_token_no_match(rest, collection, token_id);
    }
}

/// Overwriting a token's first-match entry with a record for the same token
/// sets that token's record and no other.
pub proof fn lemma_token_update(tokens: Seq<TokenRecord>, i: int, record: TokenRecord)
    requires
        0 <= i < tokens.len(),
        record.collection == tokens[i].collection,
        record.token_id == tokens[i].token_id,
        forall|j: int|
            0 <= j < i ==> !(tokens[j].collection == tokens[i].collection && tokens[j].token_id
                == tokens[i].token_id),
    ensures
        token_in(tokens.update(i, record), record.collection, record.token_id) == Some(record),
        tokens_agree_except(tokens, tokens.update(i, record), record.collection, record.token_id),
    decreases i,
{
    let upd = tokens.update(i, record);
    if i == 0 {
        assert(upd.drop_first() =~= tokens.drop_first());
        assert forall|c: u64, t: u64| c != record.collection || t != record.token_id implies
            token_in(upd, c, t) == token_in(tokens, c, t) by {}
    } else {
        let rest = tokens.drop_first();
        assert forall|j: int| 0 <= j < i - 1 implies !((#[trigger] rest[j]).collection == rest[i
            - 1].collection && rest[j].token_id == rest[i - 1].token_id) by {
            assert(rest[j] == tokens[j + 1]);
        }
        assert(rest[i - 1] == tokens[i]);
        lemma_token_update(rest, i - 1, record);
        assert(upd.drop_first() =~= rest.update(i - 1, record));
        assert(upd[0] == tokens[0]);
        assert forall|c: u64, t: u64| c != record.collection || t != record.token_id implies
            token_in(upd, c, t) == token_in(tokens, c, t) by {
            if !(tokens[0].collection == c && tokens[0].token_id == t) {
                assert(token_in(upd, c, t) == token_in(rest.update(i - 1, record), c, t));
                assert(token_in(tokens, c, t) == token_in(rest, c, t));
            }
        }
    }
}

/// Appending an entry for an unminted token sets that token's record and no
/// other; for a minted token it changes no record.
pub proof fn lemma_token_push(tokens: Seq<TokenRecord>, record: TokenRecord)
    ensures
        token_in(tokens.push(record), record.collection, record.token_id) == if has_token(
            tokens,
            record.collection,
            record.token_id,
        ) {
            token_in(tokens, record.collection, record.token_id)
        } else {
            Some(record)
        },
        tokens_agree_except(tokens, tokens.push(record), record.collection, record.token_id),
    decreases tokens.len(),
{
    let ext = tokens.push(record);
    if tokens.len() == 0 {
        assert(ext.drop_first() =~= tokens);
        assert forall|c: u64, t: u64| c != record.collection || t != record.token_id implies
            token_in(ext, c, t) == token_in(tokens, c, t) by {}
    } else {
        let rest = tokens.drop_first();
        lemma_token_push(rest, record);
        assert(ext.drop_first() =~= rest.push(record));
        assert(ext[0] == tokens[0]);
        if tokens[0].collection == record.collection && tokens[0].token_id == record.token_id {
            assert(has_token(tokens, record.collection, record.token_id));
        } else {
            assert(has_token(tokens, record.collection, record.token_id) == has_token(
                rest,
                record.collection,
                record.token_id,
            )) by {
                if has_token(rest, record.collection, record.token_id) {
                    let w = choose|i: int|
                        0 <= i < rest.len() && rest[i].collection == record.collection
                            && rest[i].token_id == record.token_id;
                    assert(tokens[w + 1].collection == record.collection && tokens[w
                        + 1].token_id == record.token_id);
                }
                if has_token(tokens, record.collection, record.token_id) {
                    let w = choose|i: int|
                        0 <= i < tokens.len() && tokens[i].collection == record.collection
                            && tokens[i].token_id == record.token_id;
                    assert(rest[w - 1].collection == record.collection && rest[w - 1].token_id
                        == record.token_id);
                }
            }
        }
        assert forall|c: u64, t: u64| c != record.collection || t != record.token_id implies
            token_in(ext, c, t) == token_in(tokens, c, t) by {
            if !(tokens[0].collection == c && tokens[0].token_id == t) {
                assert(token_in(ext, c, t) == token_in(rest.push(record), c, t));
                assert(token_in(tokens, c, t) == token_in(rest, c, t));
            }
        }
    }
}

/// Returns the position of the token's first entry, if it has one.
fn find_token(tokens: &Vec<TokenRecord>, collection: u64, token_id: u64) -> (r: Option<usize>)
    ensures
        match r {
            Some(i) => i < tokens@.len() && tokens@[i as int].collection == collection
                && tokens@[i as int].token_id == token_id && (forall|j: int|
                0 <= j < i ==> !(tokens@[j].collection == collection && tokens@[j].token_id
                    == token_id)),
            None => !has_token(tokens@, collection, token_id),
        },
{
    let mut index: usize = 0;
    while index < tokens.len()
        invariant
            index <= tokens@.len(),
            forall|j: int|
                0 <= j < index ==> !(tokens@[j].collection == collection && tokens@[j].token_id
                    == token_id),
        decreases tokens@.len() - index,
    {
        if tokens[index].collection == collection && tokens[index].token_id == token_id {
            return Some(index);
        }
        index += 1;
    }
    None
}

impl Registry {
    /// A registry with no minted tokens.
    pub fn new() -> (r: Registry)
        ensures
            r.tokens@ == Seq::<TokenRecord>::empty(),
    {
        Registry { tokens: Vec::new() }
    }

    /// Mints token `(collection, token_id)` to `recipient`.  Minting an
    /// already-minted token fails.
    pub fn mint(&mut self, recipient: Address, collection: u64, token_id: u64) -> (r: Result<
        (),
        Error,
    >)
        ensures
            match r {
                Ok(()) => !has_token(old(self).tokens@, collection, token_id) && token_in(
                    final(self).tokens@,
                    collection,
                    token_id,
                ) == Some(
                    TokenRecord { collection, token_id, owner: recipient, approved: None::<
                        Address,
                    > },
                ) && tokens_agree_except(
                    old(self).tokens@,
                    final(self).tokens@,
                    collection,
                    token_id,
                ),
                Err(e) => e == Error::KeyAlreadyExists && has_token(
                    old(self).tokens@,
                    collection,
                    token_id,
                ) && *final(self) == *old(self),
            },
    {
        match find_token(&self.tokens, collection, token_id) {
            Some(_) => Err(Error::KeyAlreadyExists),
            None => {
                let record = TokenRecord { collection, token_id, owner: recipient, approved: None };
                proof {
                    lemma_token_no_match(self.tokens@, collection, token_id);
                    lemma_token_push(self.tokens@, record);
                }
                self.tokens.push(record);
                Ok(())
            },
        }
    }

    /// Returns the recorded owner of token `(collection, token_id)`.
    pub fn owner_of(&self, collection: u64, token_id: u64) -> (r: Option<Address>)
        ensures
            r == owner_in(self.tokens@, collection, token_id),
    {
        match find_token(&self.tokens, collection, token_id) {
            Some(i) => {
                proof {
                    lemma_token_first_match(self.tokens@, i as int);
                }
                Some(self.tokens[i].owner)
            },
            None => {
                proof {
                    lemma_token_no_match(self.tokens@, collection, token_id);
                }
                None
            },
        }
    }

    /// Returns the spender approved on token `(collection, token_id)`, as
    /// answered to `owner`: the recorded approval when `owner` is the
    /// recorded owner, and nothing otherwise.
    pub fn get_approved(&self, owner: Address, collection: u64, token_id: u64) -> (r: Option<
        Address,
    >)
        ensures
            r == approved_for(self.tokens@, owner, collection, token_id),
    {
        match find_token(&self.tokens, collection, token_id) {
            Some(i) => {
                proof {
                    lemma_token_first_match(self.tokens@, i as int);
                }
                if self.tokens[i].owner == owner {
                    self.tokens[i].approved
                } else {
                    None
                }
            },
            None => {
                proof {
                    lemma_token_no_match(self.tokens@, collection, token_id);
                }
                None
            },
        }
    }

    /// Approves `spender` on token `(collection, token_id)`.  Only the
    /// token's recorded owner can approve, and only for a minted token.
    pub fn approve(&mut self, caller: Address, collection: u64, token_id: u64, spender: Address)
        -> (r: Result<(), Error>)
        ensures
            match r {
                Ok(()) => match token_in(old(self).tokens@, collection, token_id) {
                    Some(record) => record.owner == caller && token_in(
                        final(self).tokens@,
                        collection,
                        token_id,
                    ) == Some(
                        TokenRecord {
                            collection,
                            token_id,
                            owner: record.owner,
                            approved: Some(spender),
                        },
                    ) && tokens_agree_except(
                        old(self).tokens@,
                        final(self).tokens@,
                        collection,
                        token_id,
                    ),
                    None => false,
                },
                Err(e) => e == Error::NotOwner && *final(self) == *old(self) && !(owner_in(
                    old(self).tokens@,
                    collection,
                    token_id,
                ) == Some(caller)),
            },
    {
        match find_token(&self.tokens, collection, token_id) {
            Some(i) => {
                proof {
                    lemma_token_first_match(self.tokens@, i as int);
                }
                if self.tokens[i].owner == caller {
                    let record = TokenRecord {
                        collection,
                        token_id,
                        owner: caller,
                        approved: Some(spender),
                    };
                    self.tokens[i] = record;
                    proof {
                        lemma_token_update(old(self).tokens@, i as int, record);
                    }
                    Ok(())
                } else {
                    Err(Error::NotOwner)
                }
            },
            None => {
                proof {
                    lemma_token_no_match(self.tokens@, collection, token_id);
                }
                Err(Error::NotOwner)
            },
        }
    }

    /// Transfers a token the caller owns: moves token `(collection,
    /// token_id)` from `from` to `to` and clears its approval, when `from`
    /// is the recorded owner.  Reports whether the registry recorded a
    /// move; any other call leaves the registry unchanged.
    pub fn transfer(&mut self, from: Address, to: Address, collection: u64, token_id: u64)
        -> (moved: bool)
        ensures
            transfer_effect(
                old(self).tokens@,
                final(self).tokens@,
                from,
                to,
                collection,
                token_id,
                moved,
            ),
    {
        self.transfer_from(from, to, collection, token_id)
    }

    /// Transfers a token on its owner's behalf: the same effect as
    /// [`Registry::transfer`].
    pub fn transfer_from(&mut self, from: Address, to: Address, collection: u64, token_id: u64)
        -> (moved: bool)
        ensures
            transfer_effect(
                old(self).tokens@,
                final(self).tokens@,
                from,
                to,
                collection,
                token_id,
                moved,
            ),
    {
        match find_token(&self.tokens, collection, token_id) {
            Some(i) => {
                proof {
                    lemma_token_first_match(self.tokens@, i as int);
                }
                if self.tokens[i].owner == from {
                    let record = TokenRecord { collection, token_id, owner: to, approved: None };
                    self.tokens[i] = record;
                    proof {
                        lemma_token_update(old(self).tokens@, i as int, record);
                    }
                    true
                } else {
                    false
                }
            },
            None => {
                proof {
                    lemma_token_no_match(self.tokens@, collection, token_id);
                }
                false
            },
        }
    }
}

} // verus!
