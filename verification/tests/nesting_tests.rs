use rmrk_core::auth::{ensure_exists_and_get_owner, ensure_token_owner, is_caller_owner};
use rmrk_core::collection::{ChildAdmission, Collection};
use rmrk_core::types::{AccountId, ChildRef, Error, TokenId};

fn alice() -> AccountId {
    AccountId { id: 1 }
}

fn bob() -> AccountId {
    AccountId { id: 2 }
}

fn parent() -> TokenId {
    TokenId::Number(1)
}

fn child() -> ChildRef {
    ChildRef { collection: AccountId { id: 9 }, token: TokenId::Number(7) }
}

/// A collection where Alice owns parent token 1; lookups are simulated by
/// handing the operations `Some(alice())` for that parent.
fn fresh() -> Collection {
    Collection::new(100, 0)
}

#[test]
fn add_child_fast_path_self_owned() {
    let mut col = fresh();
    col.add_child(alice(), Some(alice()), &parent(), &child()).unwrap();
    let admission = col.add_child_commit(alice(), Some(alice()), parent(), child()).unwrap();
    assert_eq!(admission, ChildAdmission::Accepted);
    assert!(col.has_accepted_child(&parent(), &child()));
    assert!(!col.has_pending_child(&parent(), &child()));
}

#[test]
fn add_child_slow_path_externally_owned() {
    let mut col = fresh();
    col.add_child(alice(), Some(alice()), &parent(), &child()).unwrap();
    let admission = col.add_child_commit(alice(), Some(bob()), parent(), child()).unwrap();
    assert_eq!(admission, ChildAdmission::Pending);
    assert!(col.has_pending_child(&parent(), &child()));
    assert!(!col.has_accepted_child(&parent(), &child()));
}

#[test]
fn add_child_unowned_child_goes_pending() {
    let mut col = fresh();
    col.add_child(alice(), Some(alice()), &parent(), &child()).unwrap();
    let admission = col.add_child_commit(alice(), None, parent(), child()).unwrap();
    assert_eq!(admission, ChildAdmission::Pending);
    assert!(col.has_pending_child(&parent(), &child()));
}

#[test]
fn scenario_accept_tracks_intent() {
    // Alice owns parent token 1; Bob owns child X in another registry.
    let mut col = fresh();
    col.add_child(alice(), Some(alice()), &parent(), &child()).unwrap();
    let admission = col.add_child_commit(alice(), Some(bob()), parent(), child()).unwrap();
    assert_eq!(admission, ChildAdmission::Pending);
    assert!(col.has_pending_child(&parent(), &child()));
    // Alice accepts before Bob transfers registry ownership: membership
    // still moves, acceptance tracks intent rather than registry truth.
    col.accept_child(alice(), Some(alice()), parent(), child()).unwrap();
    assert!(col.has_accepted_child(&parent(), &child()));
    assert!(!col.has_pending_child(&parent(), &child()));
}

#[test]
fn add_child_duplicate_rejected() {
    let mut col = fresh();
    col.add_child(alice(), Some(alice()), &parent(), &child()).unwrap();
    col.add_child_commit(alice(), Some(bob()), parent(), child()).unwrap();
    // pending duplicate
    assert_eq!(
        col.add_child(alice(), Some(alice()), &parent(), &child()),
        Err(Error::DuplicateChild)
    );
    col.accept_child(alice(), Some(alice()), parent(), child()).unwrap();
    // accepted duplicate
    assert_eq!(
        col.add_child(alice(), Some(alice()), &parent(), &child()),
        Err(Error::DuplicateChild)
    );
}

#[test]
fn authorization_gate_comes_first() {
    let mut col = fresh();
    // Bob is not the owner of parent 1: every operation refuses him, even
    // ones whose later checks would also fail.
    assert_eq!(
        col.add_child(bob(), Some(alice()), &parent(), &child()),
        Err(Error::NotAuthorized)
    );
    assert_eq!(
        col.accept_child(bob(), Some(alice()), parent(), child()),
        Err(Error::NotAuthorized)
    );
    assert_eq!(
        col.reject_child(bob(), Some(alice()), &parent(), &child()),
        Err(Error::NotAuthorized)
    );
    assert_eq!(
        col.remove_child(bob(), Some(alice()), &parent(), &child()),
        Err(Error::NotAuthorized)
    );
    assert!(!col.has_pending_child(&parent(), &child()));
    assert!(!col.has_accepted_child(&parent(), &child()));
}

#[test]
fn missing_parent_token_not_found() {
    let mut col = fresh();
    assert_eq!(col.add_child(alice(), None, &parent(), &child()), Err(Error::TokenNotFound));
    assert_eq!(col.accept_child(alice(), None, parent(), child()), Err(Error::TokenNotFound));
    assert_eq!(col.reject_child(alice(), None, &parent(), &child()), Err(Error::TokenNotFound));
    assert_eq!(col.remove_child(alice(), None, &parent(), &child()), Err(Error::TokenNotFound));
}

#[test]
fn accept_without_pending_not_found() {
    let mut col = fresh();
    assert_eq!(
        col.accept_child(alice(), Some(alice()), parent(), child()),
        Err(Error::ChildNotFound)
    );
}

#[test]
fn accept_already_accepted_duplicate() {
    let mut col = fresh();
    col.add_child(alice(), Some(alice()), &parent(), &child()).unwrap();
    col.add_child_commit(alice(), Some(alice()), parent(), child()).unwrap();
    assert_eq!(
        col.accept_child(alice(), Some(alice()), parent(), child()),
        Err(Error::DuplicateChild)
    );
}

#[test]
fn reject_accepted_child_refused() {
    let mut col = fresh();
    col.add_child(alice(), Some(alice()), &parent(), &child()).unwrap();
    col.add_child_commit(alice(), Some(alice()), parent(), child()).unwrap();
    assert_eq!(
        col.reject_child(alice(), Some(alice()), &parent(), &child()),
        Err(Error::DuplicateChild)
    );
    assert!(col.has_accepted_child(&parent(), &child()));
}

#[test]
fn reject_without_pending_not_found() {
    let mut col = fresh();
    assert_eq!(
        col.reject_child(alice(), Some(alice()), &parent(), &child()),
        Err(Error::ChildNotFound)
    );
}

#[test]
fn reject_removes_pending_only() {
    let mut col = fresh();
    col.add_child(alice(), Some(alice()), &parent(), &child()).unwrap();
    col.add_child_commit(alice(), Some(bob()), parent(), child()).unwrap();
    col.reject_child(alice(), Some(alice()), &parent(), &child()).unwrap();
    assert!(!col.has_pending_child(&parent(), &child()));
    assert!(!col.has_accepted_child(&parent(), &child()));
}

#[test]
fn remove_without_accepted_not_found() {
    let mut col = fresh();
    col.add_child(alice(), Some(alice()), &parent(), &child()).unwrap();
    col.add_child_commit(alice(), Some(bob()), parent(), child()).unwrap();
    // pending, not accepted
    assert_eq!(
        col.remove_child(alice(), Some(alice()), &parent(), &child()),
        Err(Error::ChildNotFound)
    );
}

#[test]
fn remove_failure_keeps_membership() {
    let mut col = fresh();
    col.add_child(alice(), Some(alice()), &parent(), &child()).unwrap();
    col.add_child_commit(alice(), Some(alice()), parent(), child()).unwrap();
    let target = col.remove_child(alice(), Some(alice()), &parent(), &child()).unwrap();
    assert_eq!(target, alice());
    // the delegated transfer-back failed: nothing may have changed
    assert_eq!(
        col.remove_child_commit(&parent(), &child(), false),
        Err(Error::DelegatedTransferFailed)
    );
    assert!(col.has_accepted_child(&parent(), &child()));
    assert!(!col.is_in_progress());
}

#[test]
fn accept_then_remove_restores_initial_state() {
    let mut col = fresh();
    col.add_child(alice(), Some(alice()), &parent(), &child()).unwrap();
    col.add_child_commit(alice(), Some(bob()), parent(), child()).unwrap();
    col.accept_child(alice(), Some(alice()), parent(), child()).unwrap();
    let target = col.remove_child(alice(), Some(alice()), &parent(), &child()).unwrap();
    assert_eq!(target, alice());
    col.remove_child_commit(&parent(), &child(), true).unwrap();
    assert!(!col.has_pending_child(&parent(), &child()));
    assert!(!col.has_accepted_child(&parent(), &child()));
    assert!(!col.is_in_progress());
}

#[test]
fn reentrancy_guard_blocks_nested_mutation() {
    let mut col = fresh();
    col.add_child(alice(), Some(alice()), &parent(), &child()).unwrap();
    assert!(col.is_in_progress());
    let other = ChildRef { collection: AccountId { id: 9 }, token: TokenId::Number(8) };
    assert_eq!(
        col.add_child(alice(), Some(alice()), &parent(), &other),
        Err(Error::Reentrancy)
    );
    assert_eq!(
        col.accept_child(alice(), Some(alice()), parent(), other.clone()),
        Err(Error::Reentrancy)
    );
    assert_eq!(
        col.reject_child(alice(), Some(alice()), &parent(), &other),
        Err(Error::Reentrancy)
    );
    assert_eq!(
        col.remove_child(alice(), Some(alice()), &parent(), &other),
        Err(Error::Reentrancy)
    );
    col.add_child_commit(alice(), Some(alice()), parent(), child()).unwrap();
    assert!(!col.is_in_progress());
}

#[test]
fn distinct_children_tracked_separately() {
    let mut col = fresh();
    let second = ChildRef { collection: AccountId { id: 9 }, token: TokenId::Number(8) };
    let other_registry = ChildRef { collection: AccountId { id: 10 }, token: TokenId::Number(7) };
    col.add_child(alice(), Some(alice()), &parent(), &child()).unwrap();
    col.add_child_commit(alice(), Some(bob()), parent(), child()).unwrap();
    assert!(!col.has_pending_child(&parent(), &second));
    assert!(!col.has_pending_child(&parent(), &other_registry));
    col.add_child(alice(), Some(alice()), &parent(), &second).unwrap();
    col.add_child_commit(alice(), Some(alice()), parent(), second.clone()).unwrap();
    assert!(col.has_pending_child(&parent(), &child()));
    assert!(col.has_accepted_child(&parent(), &second));
}

#[test]
fn byte_string_identifiers_compared_by_contents() {
    let mut col = fresh();
    let child_a = ChildRef {
        collection: AccountId { id: 9 },
        token: TokenId::Bytes(vec![1, 2, 3]),
    };
    let child_a_again = ChildRef {
        collection: AccountId { id: 9 },
        token: TokenId::Bytes(vec![1, 2, 3]),
    };
    let child_b = ChildRef {
        collection: AccountId { id: 9 },
        token: TokenId::Bytes(vec![1, 2, 4]),
    };
    col.add_child(alice(), Some(alice()), &parent(), &child_a).unwrap();
    col.add_child_commit(alice(), Some(bob()), parent(), child_a).unwrap();
    assert!(col.has_pending_child(&parent(), &child_a_again));
    assert!(!col.has_pending_child(&parent(), &child_b));
    assert_eq!(
        col.add_child(alice(), Some(alice()), &parent(), &child_a_again),
        Err(Error::DuplicateChild)
    );
}

#[test]
fn children_under_distinct_parents_independent() {
    let mut col = fresh();
    let parent_two = TokenId::Number(2);
    col.add_child(alice(), Some(alice()), &parent(), &child()).unwrap();
    col.add_child_commit(alice(), Some(alice()), parent(), child()).unwrap();
    assert!(!col.has_accepted_child(&parent_two, &child()));
    col.add_child(bob(), Some(bob()), &parent_two, &child()).unwrap();
    col.add_child_commit(bob(), Some(alice()), parent_two.clone(), child()).unwrap();
    assert!(col.has_pending_child(&parent_two, &child()));
    assert!(col.has_accepted_child(&parent(), &child()));
}

#[test]
fn pending_and_accepted_always_exclusive() {
    let mut col = fresh();
    let exclusive = |col: &Collection| {
        !(col.has_pending_child(&parent(), &child())
            && col.has_accepted_child(&parent(), &child()))
    };
    assert!(exclusive(&col));
    col.add_child(alice(), Some(alice()), &parent(), &child()).unwrap();
    col.add_child_commit(alice(), Some(bob()), parent(), child()).unwrap();
    assert!(exclusive(&col));
    col.accept_child(alice(), Some(alice()), parent(), child()).unwrap();
    assert!(exclusive(&col));
    col.remove_child(alice(), Some(alice()), &parent(), &child()).unwrap();
    col.remove_child_commit(&parent(), &child(), true).unwrap();
    assert!(exclusive(&col));
}

#[test]
fn auth_helpers_decide_exactly() {
    assert_eq!(ensure_exists_and_get_owner(Some(alice())), Ok(alice()));
    assert_eq!(ensure_exists_and_get_owner(None), Err(Error::TokenNotFound));
    assert_eq!(ensure_token_owner(alice(), alice()), Ok(()));
    assert_eq!(ensure_token_owner(bob(), alice()), Err(Error::NotAuthorized));
    assert_eq!(is_caller_owner(alice(), Some(alice())), Ok(()));
    assert_eq!(is_caller_owner(bob(), Some(alice())), Err(Error::NotAuthorized));
    assert_eq!(is_caller_owner(alice(), None), Err(Error::TokenNotFound));
}
