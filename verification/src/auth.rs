//! Authorization checks shared by minting and nesting operations.
//!
//! The registry collaborator is the source of truth for who owns a token; an
//! owner lookup result is handed in as a plain `Option<AccountId>`.  These
//! checks are read-only: every mutating operation runs them before touching
//! any state.

use vstd::prelude::*;

use crate::types::{AccountId, Error};

verus! {

/// Token-existence check: the registry's owner lookup must have found an
/// owner.  Returns that owner, or `TokenNotFound` when the token has none.
pub fn ensure_exists_and_get_owner(owner_lookup: Option<AccountId>) -> (r: Result<
    AccountId,
    Error,
>)
    ensures
        r == match owner_lookup {
            Some(owner) => Ok::<AccountId, Error>(owner),
            None => Err::<AccountId, Error>(Error::TokenNotFound),
        },
{
    match owner_lookup {
        Some(owner) => Ok(owner),
        None => Err(Error::TokenNotFound),
    }
}

/// Caller-is-owner check against an already resolved owner: fails with
/// `NotAuthorized` when the caller is any account other than the owner.
pub fn ensure_token_owner(caller: AccountId, token_owner: AccountId) -> (r: Result<(), Error>)
    ensures
        r == if caller == token_owner {
            Ok::<(), Error>(())
        } else {
            Err::<(), Error>(Error::NotAuthorized)
        },
{
    if caller.id == token_owner.id {
        Ok(())
    } else {
        Err(Error::NotAuthorized)
    }
}

/// The full authorization gate: the token must exist (else `TokenNotFound`)
/// and the caller must be its owner (else `NotAuthorized`).
pub fn is_caller_owner(caller: AccountId, owner_lookup: Option<AccountId>) -> (r: Result<
    (),
    Error,
>)
    ensures
        r == authorize(caller, owner_lookup),
{
    let owner = match ensure_exists_and_get_owner(owner_lookup) {
        Ok(owner) => owner,
        Err(e) => {
            return Err(e);
        },
    };
    ensure_token_owner(caller, owner)
}

/// What the authorization gate decides for a caller and an owner lookup.
pub open spec fn authorize(caller: AccountId, owner_lookup: Option<AccountId>) -> Result<
    (),
    Error,
> {
    match owner_lookup {
        None => Err(Error::TokenNotFound),
        Some(owner) => if caller == owner {
            Ok(())
        } else {
            Err(Error::NotAuthorized)
        },
    }
}

} // verus!
