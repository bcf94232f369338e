//! The minting guard: a per-collection counter that allocates sequential
//! token identifiers under a fixed supply cap and an exact price per unit.
//!
//! The counter only validates and allocates identifiers; recording the new
//! token and its owner in the registry ledger is the collaborator's part and
//! happens after an allocation succeeds.

use vstd::prelude::*;

use crate::types::{clone_bytes, Error};
use crate::uri::{synthesize_uri, synthesized_uri};

verus! {

/// A per-token URI override.
pub struct UriEntry {
    pub token_id: u64,
    pub uri: Vec<u8>,
}

/// The minting state of one collection.
pub struct MintingData {
    last_token_id: u64,
    max_supply: u64,
    price_per_mint: u128,
    nft_metadata: Vec<UriEntry>,
}

impl MintingData {
    /// The identifier most recently issued; `0` before any mint.
    pub closed spec fn last_id(self) -> u64 {
        self.last_token_id
    }

    /// The supply cap fixed at collection creation.
    pub closed spec fn supply_cap(self) -> u64 {
        self.max_supply
    }

    /// The price of minting one token.
    pub closed spec fn price(self) -> u128 {
        self.price_per_mint
    }

    /// Whether a per-token URI override is stored for `token_id`.
    pub closed spec fn has_token_uri(self, token_id: u64) -> bool {
        exists|i: int|
            0 <= i < self.nft_metadata@.len() && self.nft_metadata@[i].token_id == token_id
    }

    /// The index of the override for `token_id` (meaningful when
    /// `has_token_uri`).
    closed spec fn meta_index_of(self, token_id: u64) -> int {
        choose|i: int|
            0 <= i < self.nft_metadata@.len() && self.nft_metadata@[i].token_id == token_id
    }

    /// The stored per-token URI override (meaningful when `has_token_uri`).
    pub closed spec fn stored_token_uri(self, token_id: u64) -> Seq<u8> {
        self.nft_metadata@[self.meta_index_of(token_id)].uri@
    }

    /// Well-formedness: the counter never exceeds the supply cap, and URI
    /// overrides are keyed uniquely.
    pub closed spec fn wf(self) -> bool {
        &&& self.last_token_id <= self.max_supply
        &&& forall|i: int, j: int|
            0 <= i < j < self.nft_metadata@.len() ==> self.nft_metadata@[i].token_id
                != self.nft_metadata@[j].token_id
    }

    /// An override that exists sits at a well-defined index.
    proof fn lemma_has_index(self, token_id: u64)
        requires
            self.has_token_uri(token_id),
        ensures
            0 <= self.meta_index_of(token_id) < self.nft_metadata@.len(),
            self.nft_metadata@[self.meta_index_of(token_id)].token_id == token_id,
    {
        let i = choose|i: int|
            0 <= i < self.nft_metadata@.len() && self.nft_metadata@[i].token_id == token_id;
        assert(0 <= i < self.nft_metadata@.len() && self.nft_metadata@[i].token_id == token_id);
    }

    /// With uniquely keyed overrides, an entry holding `token_id` is the one
    /// the stored-URI spec reads.
    proof fn lemma_index_unique(self, k: int, token_id: u64)
        requires
            self.wf(),
            0 <= k < self.nft_metadata@.len(),
            self.nft_metadata@[k].token_id == token_id,
        ensures
            self.has_token_uri(token_id),
            self.meta_index_of(token_id) == k,
            self.stored_token_uri(token_id) == self.nft_metadata@[k].uri@,
    {
        assert(self.has_token_uri(token_id));
        self.lemma_has_index(token_id);
        let j = self.meta_index_of(token_id);
        if j != k {
            assert(self.nft_metadata@[j].token_id != self.nft_metadata@[k].token_id);
        }
    }

    /// Two states with the same override table resolve every override alike.
    proof fn lemma_meta_preserved(a: MintingData, b: MintingData)
        requires
            a.wf(),
            a.nft_metadata@ == b.nft_metadata@,
        ensures
            forall|id: u64| a.has_token_uri(id) == b.has_token_uri(id),
            forall|id: u64|
                a.has_token_uri(id) ==> a.stored_token_uri(id) == b.stored_token_uri(id),
    {
        assert forall|id: u64| a.has_token_uri(id) == b.has_token_uri(id) by {
            if a.has_token_uri(id) {
                a.lemma_has_index(id);
                assert(b.nft_metadata@[a.meta_index_of(id)].token_id == id);
            }
            if b.has_token_uri(id) {
                b.lemma_has_index(id);
                assert(a.nft_metadata@[b.meta_index_of(id)].token_id == id);
            }
        }
        assert forall|id: u64| a.has_token_uri(id) implies a.stored_token_uri(id)
            == b.stored_token_uri(id) by {
            b.lemma_has_index(id);
            let j = b.meta_index_of(id);
            assert(a.nft_metadata@[j].token_id == id);
            a.lemma_index_unique(j, id);
        }
    }

    /// A fresh counter: nothing minted yet, no URI overrides.
    pub fn new(max_supply: u64, price_per_mint: u128) -> (r: MintingData)
        ensures
            r.wf(),
            r.last_id() == 0,
            r.supply_cap() == max_supply,
            r.price() == price_per_mint,
            forall|id: u64| !r.has_token_uri(id),
    {
        MintingData { last_token_id: 0, max_supply, price_per_mint, nft_metadata: Vec::new() }
    }

    /// The identifier most recently issued.
    pub fn last_token_id(&self) -> (r: u64)
        ensures
            r == self.last_id(),
    {
        self.last_token_id
    }

    /// Maximum number of tokens this collection can ever hold.
    pub fn max_supply(&self) -> (r: u64)
        ensures
            r == self.supply_cap(),
    {
        self.max_supply
    }

    /// The price to mint a single token.
    pub fn price_per_mint(&self) -> (r: u128)
        ensures
            r == self.price(),
    {
        self.price_per_mint
    }

    /// Validates a requested mint amount against the counter: zero amounts
    /// are rejected, as is any amount whose allocation would pass the supply
    /// cap or the counter width.  Read-only.
    pub fn _check_amount(&self, mint_amount: u64) -> (r: Result<(), Error>)
        ensures
            r == if mint_amount == 0 {
                Err::<(), Error>(Error::ZeroAmount)
            } else if self.last_id() + mint_amount <= self.supply_cap() {
                Ok::<(), Error>(())
            } else {
                Err::<(), Error>(Error::SupplyExceeded)
            },
    {
        if mint_amount == 0 {
            return Err(Error::ZeroAmount);
        }
        match self.last_token_id.checked_add(mint_amount) {
            Some(next) if next <= self.max_supply => Ok(()),
            _ => Err(Error::SupplyExceeded),
        }
    }

    /// Validates the paid value: it must equal the amount times the price
    /// exactly, and the product itself must not overflow.  Read-only.
    pub fn _check_value(&self, transferred_value: u128, mint_amount: u64) -> (r: Result<
        (),
        Error,
    >)
        ensures
            r == if mint_amount * self.price() <= u128::MAX && transferred_value == mint_amount
                * self.price() {
                Ok::<(), Error>(())
            } else {
                Err::<(), Error>(Error::BadMintValue)
            },
    {
        match (mint_amount as u128).checked_mul(self.price_per_mint) {
            Some(value) if transferred_value == value => Ok(()),
            _ => Err(Error::BadMintValue),
        }
    }

    /// Allocates the next identifier, one past the last issued, re-checking
    /// the supply cap atomically with the increment.  The caller must then
    /// have the registry record the new token.
    pub fn _mint(&mut self) -> (r: Result<u64, Error>)
        requires
            old(self).wf(),
        ensures
            final(self).wf(),
            old(self).last_id() < old(self).supply_cap() ==> {
                &&& r == Ok::<u64, Error>((old(self).last_id() + 1) as u64)
                &&& final(self).last_id() == old(self).last_id() + 1
            },
            old(self).last_id() >= old(self).supply_cap() ==> {
                &&& r == Err::<u64, Error>(Error::SupplyExceeded)
                &&& *final(self) == *old(self)
            },
            final(self).supply_cap() == old(self).supply_cap(),
            final(self).price() == old(self).price(),
            forall|id: u64| final(self).has_token_uri(id) == old(self).has_token_uri(id),
            forall|id: u64|
                old(self).has_token_uri(id) ==> final(self).stored_token_uri(id) == old(
                    self,
                ).stored_token_uri(id),
    {
        if self.last_token_id < self.max_supply {
            self.last_token_id = self.last_token_id + 1;
            proof {
                Self::lemma_meta_preserved(*old(self), *self);
            }
            Ok(self.last_token_id)
        } else {
            Err(Error::SupplyExceeded)
        }
    }

    /// Allocates `mint_amount` consecutive identifiers in increasing order,
    /// after the caller has validated the amount.  Returns the inclusive
    /// range issued; with everything validated no allocation can fail, so the
    /// batch commits as a whole.
    pub fn _mint_many(&mut self, mint_amount: u64) -> (r: Result<(u64, u64), Error>)
        requires
            old(self).wf(),
            mint_amount >= 1,
            old(self).last_id() + mint_amount <= old(self).supply_cap(),
        ensures
            final(self).wf(),
            r == Ok::<(u64, u64), Error>(
                (((old(self).last_id() + 1) as u64), ((old(self).last_id() + mint_amount) as u64)),
            ),
            final(self).last_id() == old(self).last_id() + mint_amount,
            final(self).supply_cap() == old(self).supply_cap(),
            final(self).price() == old(self).price(),
            forall|id: u64| final(self).has_token_uri(id) == old(self).has_token_uri(id),
            forall|id: u64|
                old(self).has_token_uri(id) ==> final(self).stored_token_uri(id) == old(
                    self,
                ).stored_token_uri(id),
    {
        let next_to_mint = self.last_token_id + 1;
        let mut minted: u64 = 0;
        while minted < mint_amount
            invariant
                self.wf(),
                mint_amount >= 1,
                0 <= minted <= mint_amount,
                old(self).last_id() + mint_amount <= old(self).supply_cap(),
                self.last_id() == old(self).last_id() + minted,
                self.supply_cap() == old(self).supply_cap(),
                self.price() == old(self).price(),
                forall|id: u64| self.has_token_uri(id) == old(self).has_token_uri(id),
                forall|id: u64|
                    old(self).has_token_uri(id) ==> self.stored_token_uri(id) == old(
                        self,
                    ).stored_token_uri(id),
            decreases mint_amount - minted,
        {
            match self._mint() {
                Ok(_) => {},
                Err(e) => {
                    proof {
                        assert(false);
                    }
                    return Err(e);
                },
            }
            minted = minted + 1;
        }
        Ok((next_to_mint, self.last_token_id))
    }

    /// Stores or replaces the per-token URI override for `token_id`.
    pub fn set_token_uri(&mut self, token_id: u64, uri: Vec<u8>)
        requires
            old(self).wf(),
        ensures
            final(self).wf(),
            final(self).has_token_uri(token_id),
            final(self).stored_token_uri(token_id) == uri@,
            forall|id: u64|
                id != token_id ==> final(self).has_token_uri(id) == old(self).has_token_uri(id),
            forall|id: u64|
                id != token_id && old(self).has_token_uri(id) ==> final(self).stored_token_uri(id)
                    == old(self).stored_token_uri(id),
            final(self).last_id() == old(self).last_id(),
            final(self).supply_cap() == old(self).supply_cap(),
            final(self).price() == old(self).price(),
    {
        let ghost uri_view = uri@;
        let mut i: usize = 0;
        while i < self.nft_metadata.len()
            invariant
                old(self).wf(),
                uri_view == uri@,
                0 <= i <= self.nft_metadata@.len(),
                forall|k: int| 0 <= k < i ==> self.nft_metadata@[k].token_id != token_id,
                *self == *old(self),
            decreases self.nft_metadata@.len() - i,
        {
            if self.nft_metadata[i].token_id == token_id {
                self.nft_metadata.set(i, UriEntry { token_id, uri });
                proof {
                    self.lemma_after_update(*old(self), i as int, token_id, uri_view);
                }
                return ;
            }
            i = i + 1;
        }
        self.nft_metadata.push(UriEntry { token_id, uri });
        proof {
            self.lemma_after_push(*old(self), token_id, uri_view);
        }
    }

    /// Replacing the entry at the index already keyed by `token_id` keeps
    /// the table uniquely keyed and every other override untouched.
    proof fn lemma_after_update(self, pre: MintingData, at: int, token_id: u64, uri: Seq<u8>)
        requires
            pre.wf(),
            0 <= at < pre.nft_metadata@.len(),
            pre.nft_metadata@[at].token_id == token_id,
            self.nft_metadata@.len() == pre.nft_metadata@.len(),
            self.nft_metadata@[at].token_id == token_id,
            self.nft_metadata@[at].uri@ == uri,
            forall|k: int|
                0 <= k < pre.nft_metadata@.len() && k != at ==> self.nft_metadata@[k]
                    == pre.nft_metadata@[k],
            self.last_token_id == pre.last_token_id,
            self.max_supply == pre.max_supply,
            self.price_per_mint == pre.price_per_mint,
        ensures
            self.wf(),
            self.has_token_uri(token_id),
            self.stored_token_uri(token_id) == uri,
            forall|id: u64| id != token_id ==> self.has_token_uri(id) == pre.has_token_uri(id),
            forall|id: u64|
                id != token_id && pre.has_token_uri(id) ==> self.stored_token_uri(id)
                    == pre.stored_token_uri(id),
    {
        assert forall|p: int, q: int|
            0 <= p < q < self.nft_metadata@.len() implies self.nft_metadata@[p].token_id
            != self.nft_metadata@[q].token_id by {
            assert(pre.nft_metadata@[p].token_id != pre.nft_metadata@[q].token_id);
        }
        self.lemma_index_unique(at, token_id);
        assert forall|id: u64| id != token_id implies self.has_token_uri(id)
            == pre.has_token_uri(id) by {
            if pre.has_token_uri(id) {
                pre.lemma_has_index(id);
                let j = pre.meta_index_of(id);
                assert(j != at);
                assert(self.nft_metadata@[j].token_id == id);
            }
            if self.has_token_uri(id) {
                self.lemma_has_index(id);
                let j = self.meta_index_of(id);
                assert(j != at);
                assert(pre.nft_metadata@[j].token_id == id);
            }
        }
        assert forall|id: u64| id != token_id && pre.has_token_uri(id) implies self
            .stored_token_uri(id) == pre.stored_token_uri(id) by {
            pre.lemma_has_index(id);
            let j = pre.meta_index_of(id);
            assert(j != at);
            pre.lemma_index_unique(j, id);
            self.lemma_index_unique(j, id);
        }
    }

    /// Appending an entry under a key no other entry holds keeps the table
    /// uniquely keyed and every previous override untouched.
    proof fn lemma_after_push(self, pre: MintingData, token_id: u64, uri: Seq<u8>)
        requires
            pre.wf(),
            forall|k: int|
                0 <= k < pre.nft_metadata@.len() ==> pre.nft_metadata@[k].token_id != token_id,
            self.nft_metadata@.len() == pre.nft_metadata@.len() + 1,
            self.nft_metadata@[pre.nft_metadata@.len() as int].token_id == token_id,
            self.nft_metadata@[pre.nft_metadata@.len() as int].uri@ == uri,
            forall|k: int|
                0 <= k < pre.nft_metadata@.len() ==> self.nft_metadata@[k]
                    == pre.nft_metadata@[k],
            self.last_token_id == pre.last_token_id,
            self.max_supply == pre.max_supply,
            self.price_per_mint == pre.price_per_mint,
        ensures
            self.wf(),
            self.has_token_uri(token_id),
            self.stored_token_uri(token_id) == uri,
            forall|id: u64| id != token_id ==> self.has_token_uri(id) == pre.has_token_uri(id),
            forall|id: u64|
                id != token_id && pre.has_token_uri(id) ==> self.stored_token_uri(id)
                    == pre.stored_token_uri(id),
    {
        let n = pre.nft_metadata@.len() as int;
        assert forall|p: int, q: int|
            0 <= p < q < self.nft_metadata@.len() implies self.nft_metadata@[p].token_id
            != self.nft_metadata@[q].token_id by {
            if q < n {
                assert(pre.nft_metadata@[p].token_id != pre.nft_metadata@[q].token_id);
            } else {
                assert(pre.nft_metadata@[p].token_id != token_id);
            }
        }
        self.lemma_index_unique(n, token_id);
        assert forall|id: u64| id != token_id implies self.has_token_uri(id)
            == pre.has_token_uri(id) by {
            if pre.has_token_uri(id) {
                pre.lemma_has_index(id);
                let j = pre.meta_index_of(id);
                assert(self.nft_metadata@[j].token_id == id);
            }
            if self.has_token_uri(id) {
                self.lemma_has_index(id);
                let j = self.meta_index_of(id);
                assert(j != n);
                assert(pre.nft_metadata@[j].token_id == id);
            }
        }
        assert forall|id: u64| id != token_id && pre.has_token_uri(id) implies self
            .stored_token_uri(id) == pre.stored_token_uri(id) by {
            pre.lemma_has_index(id);
            let j = pre.meta_index_of(id);
            pre.lemma_index_unique(j, id);
            self.lemma_index_unique(j, id);
        }
    }

    /// Resolves the URI of a token: the stored per-token override when one
    /// exists, else the base URI (fetched from the registry's attribute
    /// store by the caller) with the decimal identifier and `".json"`
    /// appended; `AttributeMissing` when neither is configured.
    pub fn _token_uri(&self, token_id: u64, base_uri: &Option<Vec<u8>>) -> (r: Result<
        Vec<u8>,
        Error,
    >)
        requires
            self.wf(),
        ensures
            self.has_token_uri(token_id) ==> r is Ok && r->Ok_0@ == self.stored_token_uri(
                token_id,
            ),
            !self.has_token_uri(token_id) && base_uri is Some ==> r is Ok && r->Ok_0@
                == synthesized_uri(base_uri->0@, token_id),
            !self.has_token_uri(token_id) && base_uri is None ==> r == Err::<Vec<u8>, Error>(
                Error::AttributeMissing,
            ),
    {
        let mut i: usize = 0;
        while i < self.nft_metadata.len()
            invariant
                0 <= i <= self.nft_metadata@.len(),
                self.wf(),
                forall|k: int| 0 <= k < i ==> self.nft_metadata@[k].token_id != token_id,
            decreases self.nft_metadata@.len() - i,
        {
            if self.nft_metadata[i].token_id == token_id {
                proof {
                    self.lemma_index_unique(i as int, token_id);
                }
                return Ok(clone_bytes(&self.nft_metadata[i].uri));
            }
            i = i + 1;
        }
        proof {
            if self.has_token_uri(token_id) {
                self.lemma_has_index(token_id);
            }
        }
        match base_uri {
            Some(base) => Ok(synthesize_uri(base, token_id)),
            None => Err(Error::AttributeMissing),
        }
    }
}

} // verus!
