//! A token-collection core with hierarchical ownership.
//!
//! A token of a collection (a "parent") can hold tokens of other collections
//! ("children") in either a pending or an accepted membership state, and a
//! sequential minting counter issues new token identifiers under supply and
//! price constraints.  The surrounding registry (the ledger that records which
//! account owns which token), the event sink and the cross-registry transfer
//! capability are collaborators of this library: an operation receives the
//! facts it needs from them (resolved owners, transfer outcomes) as plain
//! values and returns the actions the caller must carry out.

pub mod auth;
pub mod collection;
pub mod minting;
pub mod nesting;
pub mod types;
pub mod uri;
