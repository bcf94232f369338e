//! Identifiers, child references and the error taxonomy.

use vstd::prelude::*;

verus! {

/// An account (a wallet or a registry instance address).  Opaque to this
/// library: only compared for equality.
#[derive(Clone, Copy, Debug, PartialEq, Eq, Structural)]
pub struct AccountId {
    pub id: u128,
}

/// A token identifier.  Collections may use different identifier schemes, so
/// both an unsigned-integer and a byte-string kind are supported.  Immutable
/// once minted; the operations here compare identifiers only for equality.
#[derive(Clone, Debug)]
pub enum TokenId {
    Number(u64),
    Bytes(Vec<u8>),
}

/// The mathematical value of a `TokenId`.
pub enum TokenIdModel {
    Number(u64),
    Bytes(Seq<u8>),
}

impl View for TokenId {
    type V = TokenIdModel;

    open spec fn view(&self) -> TokenIdModel {
        match self {
            TokenId::Number(n) => TokenIdModel::Number(*n),
            TokenId::Bytes(b) => TokenIdModel::Bytes(b@),
        }
    }
}

/// Compares two byte vectors by contents.
fn bytes_eq(a: &Vec<u8>, b: &Vec<u8>) -> (r: bool)
    ensures
        r == (a@ == b@),
{
    if a.len() != b.len() {
        return false;
    }
    let mut i: usize = 0;
    while i < a.len()
        invariant
            0 <= i <= a.len(),
            a.len() == b.len(),
            forall|k: int| 0 <= k < i ==> a@[k] == b@[k],
        decreases a.len() - i,
    {
        if a[i] != b[i] {
            return false;
        }
        i = i + 1;
    }
    proof {
        assert(a@ =~= b@);
    }
    true
}

/// Copies a byte vector.
pub fn clone_bytes(v: &Vec<u8>) -> (r: Vec<u8>)
    ensures
        r@ == v@,
{
    let mut out: Vec<u8> = Vec::new();
    let mut i: usize = 0;
    while i < v.len()
        invariant
            0 <= i <= v.len(),
            out@ == v@.subrange(0, i as int),
        decreases v.len() - i,
    {
        out.push(v[i]);
        i = i + 1;
        proof {
            assert(out@ =~= v@.subrange(0, i as int));
        }
    }
    proof {
        assert(out@ =~= v@);
    }
    out
}

impl PartialEq for TokenId {
    fn eq(&self, other: &TokenId) -> (r: bool) {
        match (self, other) {
            (TokenId::Number(a), TokenId::Number(b)) => a == b,
            (TokenId::Bytes(a), TokenId::Bytes(b)) => bytes_eq(a, b),
            _ => false,
        }
    }
}

impl vstd::std_specs::cmp::PartialEqSpecImpl for TokenId {
    open spec fn obeys_eq_spec() -> bool {
        true
    }

    open spec fn eq_spec(&self, other: &TokenId) -> bool {
        self@ == other@
    }
}

/// A reference to a token held as a child: the address of the registry
/// hosting it (possibly a different registry than the parent's) paired with
/// its identifier there.  Equality is structural over both fields.
#[derive(Clone, Debug)]
pub struct ChildRef {
    pub collection: AccountId,
    pub token: TokenId,
}

/// The mathematical value of a `ChildRef`.
pub struct ChildRefModel {
    pub collection: AccountId,
    pub token: TokenIdModel,
}

impl View for ChildRef {
    type V = ChildRefModel;

    open spec fn view(&self) -> ChildRefModel {
        ChildRefModel { collection: self.collection, token: self.token@ }
    }
}

impl PartialEq for ChildRef {
    fn eq(&self, other: &ChildRef) -> (r: bool) {
        self.collection == other.collection && self.token == other.token
    }
}

impl vstd::std_specs::cmp::PartialEqSpecImpl for ChildRef {
    open spec fn obeys_eq_spec() -> bool {
        true
    }

    open spec fn eq_spec(&self, other: &ChildRef) -> bool {
        self@ == other@
    }
}

/// Everything an operation of this library can fail with.
#[derive(Clone, Copy, Debug, PartialEq, Eq, Structural)]
pub enum Error {
    /// The referenced token has no registered owner.
    TokenNotFound,
    /// The caller is not the owner of the referenced parent token.
    NotAuthorized,
    /// The child is already present in a membership set of the parent.
    DuplicateChild,
    /// The child is absent from the expected membership set.
    ChildNotFound,
    /// A mint of zero tokens was requested.
    ZeroAmount,
    /// The requested mint would exceed the supply cap or the counter width.
    SupplyExceeded,
    /// The paid value is not exactly the amount times the price per mint.
    BadMintValue,
    /// Neither a per-token URI nor a base URI is configured.
    AttributeMissing,
    /// The delegated transfer of a child's registry ownership failed.
    DelegatedTransferFailed,
    /// A mutating call arrived while another operation was in progress.
    Reentrancy,
}

} // verus!
