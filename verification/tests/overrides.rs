use flashblocks::overrides::OverrideMap;
use flashblocks::types::AccountOverride;

#[test]
fn merge_lets_the_delta_win_per_field() {
    let mut existing: OverrideMap = OverrideMap::new();
    existing.insert(
        1,
        AccountOverride { balance: Some(10), nonce_delta: 1, code_hash: Some(0xc0de) },
    );
    existing.insert(2, AccountOverride { balance: Some(20), nonce_delta: 2, code_hash: None });

    let mut delta: OverrideMap = OverrideMap::new();
    // A newer absolute balance for address 1; no code change.
    delta.insert(1, AccountOverride { balance: Some(11), nonce_delta: 3, code_hash: None });
    // A brand-new address.
    delta.insert(3, AccountOverride { balance: None, nonce_delta: 1, code_hash: None });

    let merged = existing.merge(&delta);

    // Balance replaced, nonce_delta replaced, code_hash kept.
    let e1 = merged.get(1).unwrap();
    assert_eq!(e1.balance, Some(11));
    assert_eq!(e1.nonce_delta, 3);
    assert_eq!(e1.code_hash, Some(0xc0de));

    // Untouched by the delta: kept as it was.
    let e2 = merged.get(2).unwrap();
    assert_eq!(e2.balance, Some(20));
    assert_eq!(e2.nonce_delta, 2);

    // Only in the delta: taken as is.
    let e3 = merged.get(3).unwrap();
    assert_eq!(e3.balance, None);
    assert_eq!(e3.nonce_delta, 1);

    // Absent everywhere: absent in the merge.
    assert!(merged.get(4).is_none());
}

#[test]
fn merge_with_a_balance_kept_when_delta_has_none() {
    let mut existing: OverrideMap = OverrideMap::new();
    existing.insert(9, AccountOverride { balance: Some(77), nonce_delta: 1, code_hash: None });

    let mut delta: OverrideMap = OverrideMap::new();
    delta.insert(9, AccountOverride { balance: None, nonce_delta: 2, code_hash: Some(5) });

    let merged = existing.merge(&delta);
    let e = merged.get(9).unwrap();
    assert_eq!(e.balance, Some(77));
    assert_eq!(e.nonce_delta, 2);
    assert_eq!(e.code_hash, Some(5));
}

#[test]
fn assoc_map_insert_replaces_and_duplicate_copies() {
    let mut m: OverrideMap = OverrideMap::new();
    m.insert(1, AccountOverride { balance: Some(1), nonce_delta: 0, code_hash: None });
    m.insert(1, AccountOverride { balance: Some(2), nonce_delta: 0, code_hash: None });
    assert_eq!(m.get(1).unwrap().balance, Some(2));

    let copy = m.duplicate();
    assert_eq!(copy.get(1).unwrap().balance, Some(2));
    assert!(copy.get(2).is_none());
}
