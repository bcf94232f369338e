use rmrk_core::collection::Collection;
use rmrk_core::types::Error;

#[test]
fn token_uri_synthesized_from_base() {
    let col = Collection::new(10, 0);
    let base = Some(b"ipfs://collection/".to_vec());
    let uri = col.token_uri(120, &base).unwrap();
    assert_eq!(uri, b"ipfs://collection/120.json".to_vec());
}

#[test]
fn token_uri_zero_identifier() {
    let col = Collection::new(10, 0);
    let base = Some(b"x/".to_vec());
    assert_eq!(col.token_uri(0, &base).unwrap(), b"x/0.json".to_vec());
}

#[test]
fn token_uri_large_identifier() {
    let col = Collection::new(10, 0);
    let base = Some(b"".to_vec());
    assert_eq!(
        col.token_uri(u64::MAX, &base).unwrap(),
        b"18446744073709551615.json".to_vec()
    );
}

#[test]
fn token_uri_override_wins_over_base() {
    let mut col = Collection::new(10, 0);
    col.set_token_uri(7, b"ipfs://special.json".to_vec());
    let base = Some(b"ipfs://collection/".to_vec());
    assert_eq!(col.token_uri(7, &base).unwrap(), b"ipfs://special.json".to_vec());
    assert_eq!(col.token_uri(8, &base).unwrap(), b"ipfs://collection/8.json".to_vec());
}

#[test]
fn token_uri_override_replaced() {
    let mut col = Collection::new(10, 0);
    col.set_token_uri(7, b"first".to_vec());
    col.set_token_uri(9, b"other".to_vec());
    col.set_token_uri(7, b"second".to_vec());
    assert_eq!(col.token_uri(7, &None).unwrap(), b"second".to_vec());
    assert_eq!(col.token_uri(9, &None).unwrap(), b"other".to_vec());
}

#[test]
fn token_uri_missing_attribute() {
    let col = Collection::new(10, 0);
    assert_eq!(col.token_uri(1, &None), Err(Error::AttributeMissing));
}
