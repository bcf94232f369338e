use rmrk_core::collection::{Collection, MintReceipt};
use rmrk_core::minting::MintingData;
use rmrk_core::types::{AccountId, ChildRef, Error, TokenId};

fn alice() -> AccountId {
    AccountId { id: 1 }
}

fn bob() -> AccountId {
    AccountId { id: 2 }
}

#[test]
fn mint_batch_exact_price_succeeds() {
    let mut col = Collection::new(3, 100);
    let r = col.mint(alice(), 200, 2);
    assert_eq!(r, Ok(MintReceipt { to: alice(), first_id: 1, last_id: 2 }));
    assert_eq!(col.last_token_id(), 2);
}

#[test]
fn mint_batch_supply_exceeded_preserves_counter() {
    let mut col = Collection::new(3, 100);
    let r = col.mint(alice(), 200, 2);
    assert_eq!(r, Ok(MintReceipt { to: alice(), first_id: 1, last_id: 2 }));
    let r2 = col.mint(bob(), 200, 2);
    assert_eq!(r2, Err(Error::SupplyExceeded));
    assert_eq!(col.last_token_id(), 2);
}

#[test]
fn mint_zero_amount_rejected() {
    let mut col = Collection::new(3, 100);
    let r = col.mint(alice(), 0, 0);
    assert_eq!(r, Err(Error::ZeroAmount));
    assert_eq!(col.last_token_id(), 0);
}

#[test]
fn mint_wrong_value_rejected() {
    let mut col = Collection::new(10, 100);
    assert_eq!(col.mint(alice(), 199, 2), Err(Error::BadMintValue));
    assert_eq!(col.mint(alice(), 201, 2), Err(Error::BadMintValue));
    assert_eq!(col.mint(alice(), 0, 2), Err(Error::BadMintValue));
    assert_eq!(col.last_token_id(), 0);
    assert_eq!(
        col.mint(alice(), 200, 2),
        Ok(MintReceipt { to: alice(), first_id: 1, last_id: 2 })
    );
}

#[test]
fn mint_value_overflow_rejected() {
    let mut col = Collection::new(10, u128::MAX);
    assert_eq!(col.mint(alice(), u128::MAX, 2), Err(Error::BadMintValue));
    assert_eq!(col.mint(alice(), 0, 2), Err(Error::BadMintValue));
    assert_eq!(col.last_token_id(), 0);
}

#[test]
fn mint_free_collection() {
    let mut col = Collection::new(5, 0);
    let r = col.mint(alice(), 0, 5);
    assert_eq!(r, Ok(MintReceipt { to: alice(), first_id: 1, last_id: 5 }));
    assert_eq!(col.mint(alice(), 0, 1), Err(Error::SupplyExceeded));
}

#[test]
fn mint_monotonic_counter() {
    let mut col = Collection::new(6, 10);
    let mut last = 0;
    for _ in 0..3 {
        let r = col.mint(alice(), 20, 2).unwrap();
        assert!(r.first_id == last + 1);
        assert!(r.last_id == last + 2);
        assert!(col.last_token_id() > last);
        assert!(col.last_token_id() <= col.max_supply());
        last = col.last_token_id();
    }
    assert_eq!(last, 6);
}

#[test]
fn mint_reentrancy_blocked() {
    let mut col = Collection::new(3, 100);
    let parent = TokenId::Number(1);
    let child = ChildRef { collection: AccountId { id: 9 }, token: TokenId::Number(7) };
    col.add_child(alice(), Some(alice()), &parent, &child).unwrap();
    assert!(col.is_in_progress());
    assert_eq!(col.mint(alice(), 100, 1), Err(Error::Reentrancy));
    col.add_child_commit(alice(), Some(alice()), parent, child).unwrap();
    assert!(!col.is_in_progress());
    assert!(col.mint(alice(), 100, 1).is_ok());
}

#[test]
fn collection_getters() {
    let col = Collection::new(42, 77);
    assert_eq!(col.max_supply(), 42);
    assert_eq!(col.price_per_mint(), 77);
    assert_eq!(col.last_token_id(), 0);
    assert!(!col.is_in_progress());
}

#[test]
fn check_amount_validation() {
    let m = MintingData::new(5, 10);
    assert_eq!(m._check_amount(0), Err(Error::ZeroAmount));
    assert_eq!(m._check_amount(5), Ok(()));
    assert_eq!(m._check_amount(6), Err(Error::SupplyExceeded));
    assert_eq!(m._check_amount(u64::MAX), Err(Error::SupplyExceeded));
}

#[test]
fn check_value_validation() {
    let m = MintingData::new(5, 10);
    assert_eq!(m._check_value(30, 3), Ok(()));
    assert_eq!(m._check_value(29, 3), Err(Error::BadMintValue));
    assert_eq!(m._check_value(31, 3), Err(Error::BadMintValue));
    let pricey = MintingData::new(5, u128::MAX);
    assert_eq!(pricey._check_value(u128::MAX, 1), Ok(()));
    assert_eq!(pricey._check_value(u128::MAX, 3), Err(Error::BadMintValue));
}

#[test]
fn mint_one_recheck_at_cap() {
    let mut m = MintingData::new(1, 0);
    assert_eq!(m._mint(), Ok(1));
    assert_eq!(m._mint(), Err(Error::SupplyExceeded));
    assert_eq!(m.last_token_id(), 1);
}
