//! One collection: its minting guard, its nested-ownership state machine
//! and the reentrancy guard that serializes mutating operations.
//!
//! Every mutating operation runs its authorization and validation checks
//! before touching any state, and returns a structured outcome; nothing is
//! reported through notifications alone.  An operation whose middle is a
//! call-out to another registry (proposing a child, removing a child) is
//! split in two: the first half validates and latches the reentrancy guard,
//! the caller performs the call-out, and the second half applies the change
//! and releases the guard.  A mutating call that arrives while the guard is
//! latched fails fast with `Reentrancy`.
//!
//! Re-parenting a child directly to a third party is deliberately not
//! offered: who must consent and where the child's registry ownership moves
//! is an unsettled policy question, and until it is settled a caller removes
//! the child and proposes it elsewhere.

use vstd::prelude::*;

use crate::auth::{authorize, is_caller_owner};
use crate::minting::MintingData;
use crate::nesting::{
    lemma_pending_accepted_exclusive, nest_accept, nest_add_accepted, nest_add_pending,
    nest_remove_accepted, nest_remove_pending, NestState, NestingData,
};
use crate::types::{AccountId, ChildRef, ChildRefModel, Error, TokenId, TokenIdModel};
use crate::uri::synthesized_uri;

verus! {

/// How a proposed child was admitted: directly into the accepted set (the
/// caller already owned it) or into the pending set.  The caller notifies
/// the event sink accordingly: a child-added notification always, and a
/// child-accepted notification only for a direct admission.
#[derive(Clone, Copy, Debug, PartialEq, Eq, Structural)]
pub enum ChildAdmission {
    Accepted,
    Pending,
}

/// A successful mint batch: the account to record as owner and the
/// inclusive range of identifiers issued.  The caller has the registry
/// ledger record each of them and notifies the event sink.
#[derive(Clone, Copy, Debug, PartialEq, Eq, Structural)]
pub struct MintReceipt {
    pub to: AccountId,
    pub first_id: u64,
    pub last_id: u64,
}

/// What a mint request returns, decided entirely before any state moves:
/// reentrancy, then the amount checks, then the exact-payment check.
pub open spec fn mint_outcome(
    m: MintingData,
    in_prog: bool,
    to: AccountId,
    value: u128,
    amount: u64,
) -> Result<MintReceipt, Error> {
    if in_prog {
        Err(Error::Reentrancy)
    } else if amount == 0 {
        Err(Error::ZeroAmount)
    } else if m.last_id() + amount > m.supply_cap() {
        Err(Error::SupplyExceeded)
    } else if !(amount * m.price() <= u128::MAX && value == amount * m.price()) {
        Err(Error::BadMintValue)
    } else {
        Ok(
            MintReceipt {
                to,
                first_id: (m.last_id() + 1) as u64,
                last_id: (m.last_id() + amount) as u64,
            },
        )
    }
}

/// What the first half of a child proposal returns: reentrancy, then the
/// authorization gate for the parent, then the duplicate checks against the
/// accepted and the pending set, in that order.
pub open spec fn add_child_outcome(
    in_prog: bool,
    caller: AccountId,
    parent_owner: Option<AccountId>,
    s: NestState,
    p: TokenIdModel,
    c: ChildRefModel,
) -> Result<(), Error> {
    if in_prog {
        Err(Error::Reentrancy)
    } else if authorize(caller, parent_owner) is Err {
        Err(authorize(caller, parent_owner)->Err_0)
    } else if s.accepted[p].contains(c) {
        Err(Error::DuplicateChild)
    } else if s.pending[p].contains(c) {
        Err(Error::DuplicateChild)
    } else {
        Ok(())
    }
}

/// What the second half of a child proposal returns: the duplicate checks
/// again, then admission — accepted directly when the child's registry
/// owner is the caller, pending otherwise.
pub open spec fn admission_outcome(
    caller: AccountId,
    child_owner: Option<AccountId>,
    s: NestState,
    p: TokenIdModel,
    c: ChildRefModel,
) -> Result<ChildAdmission, Error> {
    if s.accepted[p].contains(c) {
        Err(Error::DuplicateChild)
    } else if s.pending[p].contains(c) {
        Err(Error::DuplicateChild)
    } else if child_owner == Some(caller) {
        Ok(ChildAdmission::Accepted)
    } else {
        Ok(ChildAdmission::Pending)
    }
}

/// What accepting a child returns: reentrancy, the authorization gate, a
/// duplicate check against the accepted set, then the pending membership.
pub open spec fn accept_child_outcome(
    in_prog: bool,
    caller: AccountId,
    parent_owner: Option<AccountId>,
    s: NestState,
    p: TokenIdModel,
    c: ChildRefModel,
) -> Result<(), Error> {
    if in_prog {
        Err(Error::Reentrancy)
    } else if authorize(caller, parent_owner) is Err {
        Err(authorize(caller, parent_owner)->Err_0)
    } else if s.accepted[p].contains(c) {
        Err(Error::DuplicateChild)
    } else if !s.pending[p].contains(c) {
        Err(Error::ChildNotFound)
    } else {
        Ok(())
    }
}

/// What the first half of a child removal returns: reentrancy, the
/// authorization gate, then the accepted membership; on success, the
/// account the child's ownership must be handed back to — the parent
/// token's owner.
pub open spec fn remove_child_outcome(
    in_prog: bool,
    caller: AccountId,
    parent_owner: Option<AccountId>,
    s: NestState,
    p: TokenIdModel,
    c: ChildRefModel,
) -> Result<AccountId, Error> {
    if in_prog {
        Err(Error::Reentrancy)
    } else if authorize(caller, parent_owner) is Err {
        Err(authorize(caller, parent_owner)->Err_0)
    } else if !s.accepted[p].contains(c) {
        Err(Error::ChildNotFound)
    } else {
        Ok(parent_owner->0)
    }
}

/// What the second half of a child removal returns: the delegated
/// transfer's outcome first — a failed hand-off leaves the membership
/// untouched — then the accepted membership.
pub open spec fn remove_commit_outcome(
    transfer_ok: bool,
    s: NestState,
    p: TokenIdModel,
    c: ChildRefModel,
) -> Result<(), Error> {
    if !transfer_ok {
        Err(Error::DelegatedTransferFailed)
    } else if !s.accepted[p].contains(c) {
        Err(Error::ChildNotFound)
    } else {
        Ok(())
    }
}

/// A collection: minting counter, nested-ownership bookkeeping, and the
/// guard flag that is latched while an operation with a call-out is in
/// progress.
pub struct Collection {
    minting: MintingData,
    nesting: NestingData,
    guard: bool,
}

impl Collection {
    /// The minting state.
    pub closed spec fn mint_state(self) -> MintingData {
        self.minting
    }

    /// The nested-ownership membership state.
    pub closed spec fn nest(self) -> NestState {
        self.nesting@
    }

    /// Whether an operation with a call-out is in progress.
    pub closed spec fn in_progress(self) -> bool {
        self.guard
    }

    /// Well-formedness of both state components.
    pub closed spec fn wf(self) -> bool {
        self.minting.wf() && self.nesting.wf()
    }

    /// A fresh collection with the given supply cap and unit price.
    pub fn new(max_supply: u64, price_per_mint: u128) -> (r: Collection)
        ensures
            r.wf(),
            !r.in_progress(),
            r.mint_state().last_id() == 0,
            r.mint_state().supply_cap() == max_supply,
            r.mint_state().price() == price_per_mint,
            forall|id: u64| !r.mint_state().has_token_uri(id),
            forall|p: TokenIdModel| r.nest().pending[p] == Set::<ChildRefModel>::empty(),
            forall|p: TokenIdModel| r.nest().accepted[p] == Set::<ChildRefModel>::empty(),
    {
        let nesting = NestingData::new();
        let minting = MintingData::new(max_supply, price_per_mint);
        let r = Collection { minting, nesting, guard: false };
        proof {
            assert forall|p: TokenIdModel|
                (r.nest().pending[p] == Set::<ChildRefModel>::empty() && r.nest().accepted[p]
                    == Set::<ChildRefModel>::empty()) by {
                r.nesting.lemma_view_at(p);
            }
        }
        r
    }

    /// The identifier most recently issued.
    pub fn last_token_id(&self) -> (r: u64)
        ensures
            r == self.mint_state().last_id(),
    {
        self.minting.last_token_id()
    }

    /// Maximum number of tokens this collection can ever hold.
    pub fn max_supply(&self) -> (r: u64)
        ensures
            r == self.mint_state().supply_cap(),
    {
        self.minting.max_supply()
    }

    /// The price to mint a single token.
    pub fn price_per_mint(&self) -> (r: u128)
        ensures
            r == self.mint_state().price(),
    {
        self.minting.price_per_mint()
    }

    /// Whether an operation with a call-out is in progress.
    pub fn is_in_progress(&self) -> (r: bool)
        ensures
            r == self.in_progress(),
    {
        self.guard
    }

    /// Whether `child` is a pending child of `parent`.
    pub fn has_pending_child(&self, parent: &TokenId, child: &ChildRef) -> (r: bool)
        requires
            self.wf(),
        ensures
            r == self.nest().pending[parent@].contains(child@),
    {
        self.nesting.has_pending_child(parent, child)
    }

    /// Whether `child` is an accepted child of `parent`.
    pub fn has_accepted_child(&self, parent: &TokenId, child: &ChildRef) -> (r: bool)
        requires
            self.wf(),
        ensures
            r == self.nest().accepted[parent@].contains(child@),
    {
        self.nesting.has_accepted_child(parent, child)
    }

    /// Mints `mint_amount` new tokens for `to` against a payment of
    /// `transferred_value`.  All checks run before the counter moves, so a
    /// failed batch changes nothing and a successful one commits as a
    /// whole, issuing consecutive identifiers in increasing order.
    pub fn mint(&mut self, to: AccountId, transferred_value: u128, mint_amount: u64) -> (r:
        Result<MintReceipt, Error>)
        requires
            old(self).wf(),
        ensures
            final(self).wf(),
            r == mint_outcome(
                old(self).mint_state(),
                old(self).in_progress(),
                to,
                transferred_value,
                mint_amount,
            ),
            final(self).nest() == old(self).nest(),
            final(self).in_progress() == old(self).in_progress(),
            r is Err ==> final(self).mint_state() == old(self).mint_state(),
            r is Ok ==> final(self).mint_state().last_id() == old(self).mint_state().last_id()
                + mint_amount,
            final(self).mint_state().supply_cap() == old(self).mint_state().supply_cap(),
            final(self).mint_state().price() == old(self).mint_state().price(),
            forall|id: u64|
                #[trigger] final(self).mint_state().has_token_uri(id)
                    == old(self).mint_state().has_token_uri(id),
            forall|id: u64|
                old(self).mint_state().has_token_uri(id)
                    ==> #[trigger] final(self).mint_state().stored_token_uri(id)
                    == old(self).mint_state().stored_token_uri(id),
    {
        if self.guard {
            return Err(Error::Reentrancy);
        }
        match self.minting._check_amount(mint_amount) {
            Err(e) => {
                return Err(e);
            },
            Ok(()) => {},
        }
        match self.minting._check_value(transferred_value, mint_amount) {
            Err(e) => {
                return Err(e);
            },
            Ok(()) => {},
        }
        match self.minting._mint_many(mint_amount) {
            Ok((first, last)) => Ok(MintReceipt { to, first_id: first, last_id: last }),
            Err(e) => {
                proof {
                    assert(false);
                }
                Err(e)
            },
        }
    }

    /// Stores or replaces the per-token URI override for `token_id`.
    pub fn set_token_uri(&mut self, token_id: u64, uri: Vec<u8>)
        requires
            old(self).wf(),
        ensures
            final(self).wf(),
            final(self).nest() == old(self).nest(),
            final(self).in_progress() == old(self).in_progress(),
            final(self).mint_state().has_token_uri(token_id),
            final(self).mint_state().stored_token_uri(token_id) == uri@,
            forall|id: u64|
                id != token_id
                    ==> #[trigger] final(self).mint_state().has_token_uri(id)
                    == old(self).mint_state().has_token_uri(id),
            forall|id: u64|
                id != token_id && old(self).mint_state().has_token_uri(id)
                    ==> #[trigger] final(self).mint_state().stored_token_uri(id)
                    == old(self).mint_state().stored_token_uri(id),
            final(self).mint_state().last_id() == old(self).mint_state().last_id(),
            final(self).mint_state().supply_cap() == old(self).mint_state().supply_cap(),
            final(self).mint_state().price() == old(self).mint_state().price(),
    {
        self.minting.set_token_uri(token_id, uri);
    }

    /// Resolves the URI of `token_id`: its stored override when one exists,
    /// else the base URI (fetched from the registry's attribute store by the
    /// caller) with the decimal identifier and `".json"` appended;
    /// `AttributeMissing` when neither is configured.
    pub fn token_uri(&self, token_id: u64, base_uri: &Option<Vec<u8>>) -> (r: Result<
        Vec<u8>,
        Error,
    >)
        requires
            self.wf(),
        ensures
            self.mint_state().has_token_uri(token_id) ==> r is Ok && r->Ok_0@ == self.mint_state()
                .stored_token_uri(token_id),
            !self.mint_state().has_token_uri(token_id) && base_uri is Some ==> r is Ok
                && r->Ok_0@ == synthesized_uri(base_uri->0@, token_id),
            !self.mint_state().has_token_uri(token_id) && base_uri is None ==> r == Err::<
                Vec<u8>,
                Error,
            >(Error::AttributeMissing),
    {
        self.minting._token_uri(token_id, base_uri)
    }

    /// The first half of proposing `child` for `parent`: the reentrancy,
    /// authorization and duplicate checks, with `parent_owner` the
    /// registry's owner lookup for `parent`.  On success the guard is
    /// latched; the caller then resolves the child's owner through the
    /// child's own registry and finishes with `add_child_commit`.  Nothing
    /// is mutated here.
    pub fn add_child(
        &mut self,
        caller: AccountId,
        parent_owner: Option<AccountId>,
        parent: &TokenId,
        child: &ChildRef,
    ) -> (r: Result<(), Error>)
        requires
            old(self).wf(),
        ensures
            final(self).wf(),
            r == add_child_outcome(
                old(self).in_progress(),
                caller,
                parent_owner,
                old(self).nest(),
                parent@,
                child@,
            ),
            final(self).nest() == old(self).nest(),
            final(self).mint_state() == old(self).mint_state(),
            final(self).in_progress() == (old(self).in_progress() || r is Ok),
    {
        if self.guard {
            return Err(Error::Reentrancy);
        }
        match is_caller_owner(caller, parent_owner) {
            Err(e) => {
                return Err(e);
            },
            Ok(()) => {},
        }
        match self.nesting.already_accepted(parent, child) {
            Err(e) => {
                return Err(e);
            },
            Ok(()) => {},
        }
        match self.nesting.already_pending(parent, child) {
            Err(e) => {
                return Err(e);
            },
            Ok(()) => {},
        }
        self.guard = true;
        Ok(())
    }

    /// The second half of proposing `child` for `parent`, run after the
    /// caller resolved the child's owner (`child_owner`) through the
    /// child's own registry.  A child the caller already owns is admitted
    /// straight into the accepted set; any other child becomes pending
    /// until the parent's owner accepts it.  The guard is released on every
    /// path.
    pub fn add_child_commit(
        &mut self,
        caller: AccountId,
        child_owner: Option<AccountId>,
        parent: TokenId,
        child: ChildRef,
    ) -> (r: Result<ChildAdmission, Error>)
        requires
            old(self).wf(),
            old(self).in_progress(),
        ensures
            final(self).wf(),
            !final(self).in_progress(),
            final(self).mint_state() == old(self).mint_state(),
            r == admission_outcome(caller, child_owner, old(self).nest(), parent@, child@),
            r == Ok::<ChildAdmission, Error>(ChildAdmission::Accepted) ==> final(self).nest()
                == nest_add_accepted(old(self).nest(), parent@, child@),
            r == Ok::<ChildAdmission, Error>(ChildAdmission::Pending) ==> final(self).nest()
                == nest_add_pending(old(self).nest(), parent@, child@),
            r is Err ==> final(self).nest() == old(self).nest(),
    {
        self.guard = false;
        match self.nesting.already_accepted(&parent, &child) {
            Err(e) => {
                return Err(e);
            },
            Ok(()) => {},
        }
        match self.nesting.already_pending(&parent, &child) {
            Err(e) => {
                return Err(e);
            },
            Ok(()) => {},
        }
        let fast = match child_owner {
            Some(owner) => owner == caller,
            None => false,
        };
        if fast {
            self.nesting.add_to_accepted(parent, child);
            Ok(ChildAdmission::Accepted)
        } else {
            self.nesting.add_to_pending(parent, child);
            Ok(ChildAdmission::Pending)
        }
    }

    /// Accepts the pending child `child` of `parent`: after the reentrancy
    /// and authorization checks it moves from the pending to the accepted
    /// set.  Acceptance tracks intent; it does not require that the
    /// registry ownership of the child has moved yet.
    pub fn accept_child(
        &mut self,
        caller: AccountId,
        parent_owner: Option<AccountId>,
        parent: TokenId,
        child: ChildRef,
    ) -> (r: Result<(), Error>)
        requires
            old(self).wf(),
        ensures
            final(self).wf(),
            r == accept_child_outcome(
                old(self).in_progress(),
                caller,
                parent_owner,
                old(self).nest(),
                parent@,
                child@,
            ),
            final(self).mint_state() == old(self).mint_state(),
            final(self).in_progress() == old(self).in_progress(),
            r is Ok ==> final(self).nest() == nest_accept(old(self).nest(), parent@, child@),
            r is Err ==> final(self).nest() == old(self).nest(),
    {
        if self.guard {
            return Err(Error::Reentrancy);
        }
        match is_caller_owner(caller, parent_owner) {
            Err(e) => {
                return Err(e);
            },
            Ok(()) => {},
        }
        match self.nesting.already_accepted(&parent, &child) {
            Err(e) => {
                return Err(e);
            },
            Ok(()) => {},
        }
        match self.nesting.remove_from_pending(&parent, &child) {
            Err(e) => {
                return Err(e);
            },
            Ok(()) => {},
        }
        self.nesting.add_to_accepted(parent, child);
        Ok(())
    }

    /// Rejects the pending child `child` of `parent`: after the reentrancy
    /// and authorization checks it is deleted from the pending set.  A
    /// child already accepted cannot be rejected (use removal), and no
    /// registry interaction is involved: a rejected child was never
    /// transferred.
    pub fn reject_child(
        &mut self,
        caller: AccountId,
        parent_owner: Option<AccountId>,
        parent: &TokenId,
        child: &ChildRef,
    ) -> (r: Result<(), Error>)
        requires
            old(self).wf(),
        ensures
            final(self).wf(),
            r == accept_child_outcome(
                old(self).in_progress(),
                caller,
                parent_owner,
                old(self).nest(),
                parent@,
                child@,
            ),
            final(self).mint_state() == old(self).mint_state(),
            final(self).in_progress() == old(self).in_progress(),
            r is Ok ==> final(self).nest() == nest_remove_pending(
                old(self).nest(),
                parent@,
                child@,
            ),
            r is Err ==> final(self).nest() == old(self).nest(),
    {
        if self.guard {
            return Err(Error::Reentrancy);
        }
        match is_caller_owner(caller, parent_owner) {
            Err(e) => {
                return Err(e);
            },
            Ok(()) => {},
        }
        match self.nesting.already_accepted(parent, child) {
            Err(e) => {
                return Err(e);
            },
            Ok(()) => {},
        }
        match self.nesting.remove_from_pending(parent, child) {
            Err(e) => {
                return Err(e);
            },
            Ok(()) => {},
        }
        Ok(())
    }

    /// The first half of removing the accepted child `child` of `parent`:
    /// the reentrancy, authorization and membership checks.  On success the
    /// guard is latched and the parent token's owner is returned; the
    /// caller then asks the child's registry to hand the child's ownership
    /// back to that account and finishes with `remove_child_commit`.
    /// Nothing is mutated here: the membership entry stays until the
    /// hand-off is known to have succeeded.
    pub fn remove_child(
        &mut self,
        caller: AccountId,
        parent_owner: Option<AccountId>,
        parent: &TokenId,
        child: &ChildRef,
    ) -> (r: Result<AccountId, Error>)
        requires
            old(self).wf(),
        ensures
            final(self).wf(),
            r == remove_child_outcome(
                old(self).in_progress(),
                caller,
                parent_owner,
                old(self).nest(),
                parent@,
                child@,
            ),
            final(self).nest() == old(self).nest(),
            final(self).mint_state() == old(self).mint_state(),
            final(self).in_progress() == (old(self).in_progress() || r is Ok),
    {
        if self.guard {
            return Err(Error::Reentrancy);
        }
        match is_caller_owner(caller, parent_owner) {
            Err(e) => {
                return Err(e);
            },
            Ok(()) => {},
        }
        if !self.nesting.has_accepted_child(parent, child) {
            return Err(Error::ChildNotFound);
        }
        let owner = match parent_owner {
            Some(owner) => owner,
            None => {
                proof {
                    assert(false);
                }
                caller
            },
        };
        self.guard = true;
        Ok(owner)
    }

    /// The second half of removing a child, run after the delegated
    /// transfer of the child's registry ownership came back: `transfer_ok`
    /// says whether it succeeded.  A failed hand-off leaves the accepted
    /// set exactly as it was and reports `DelegatedTransferFailed`; a
    /// successful one deletes the membership entry.  The guard is released
    /// on every path.
    pub fn remove_child_commit(&mut self, parent: &TokenId, child: &ChildRef, transfer_ok: bool) -> (r: Result<(), Error>)
        requires
            old(self).wf(),
            old(self).in_progress(),
        ensures
            final(self).wf(),
            !final(self).in_progress(),
            final(self).mint_state() == old(self).mint_state(),
            r == remove_commit_outcome(transfer_ok, old(self).nest(), parent@, child@),
            r is Ok ==> final(self).nest() == nest_remove_accepted(
                old(self).nest(),
                parent@,
                child@,
            ),
            r is Err ==> final(self).nest() == old(self).nest(),
    {
        self.guard = false;
        if !transfer_ok {
            return Err(Error::DelegatedTransferFailed);
        }
        match self.nesting.remove_from_accepted(parent, child) {
            Err(e) => Err(e),
            Ok(()) => Ok(()),
        }
    }
}

/// Law: minting is monotonic.  Whenever a mint request succeeds, the counter
/// moves strictly upward — by exactly the amount requested, with no gap and
/// no reuse — and still does not pass the supply cap; together with `mint`'s
/// postcondition that the new counter is the old plus the amount, every
/// sequence of successful mints yields a strictly increasing counter bounded
/// by `max_supply`.
pub proof fn lemma_mint_monotonic(
    m: MintingData,
    in_prog: bool,
    to: AccountId,
    value: u128,
    amount: u64,
)
    requires
        mint_outcome(m, in_prog, to, value, amount) is Ok,
    ensures
        m.last_id() < m.last_id() + amount,
        m.last_id() + amount <= m.supply_cap(),
{
}

/// A child reference is never both pending and accepted under the same
/// parent of a well-formed collection.
pub proof fn lemma_collection_exclusive(col: Collection, p: TokenIdModel, c: ChildRefModel)
    requires
        col.wf(),
    ensures
        !(col.nest().pending[p].contains(c) && col.nest().accepted[p].contains(c)),
{
    lemma_pending_accepted_exclusive(col.nesting, p, c);
}

} // verus!
