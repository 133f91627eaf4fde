use hookbot::routes::pairing::{hash_token, refusal_status, PairingStore, RedeemAnswer, RedeemError, PAIRING_TTL_SECS};

const NOW: i64 = 1_750_000_000;

#[test]
fn valid_token_redeems_and_returns_its_user() {
    let mut store = PairingStore::new();
    let (token, expires_at) = store.create_token(Some("user-1"), PAIRING_TTL_SECS, NOW).expect("mint");

    assert!(token.starts_with("hbp_"));
    assert_eq!(expires_at, NOW + PAIRING_TTL_SECS);
    assert_eq!(store.consume_token(&token, NOW), Ok(Some("user-1".to_string())));
}

#[test]
fn single_user_mode_token_redeems_without_a_user() {
    let mut store = PairingStore::new();
    let (token, _) = store.create_token(None, PAIRING_TTL_SECS, NOW).expect("mint");
    assert_eq!(store.consume_token(&token, NOW), Ok(None));
}

#[test]
fn expired_token_is_rejected() {
    let mut store = PairingStore::new();
    let (token, _) = store.create_token(None, -10, NOW).expect("mint");
    assert_eq!(store.consume_token(&token, NOW), Err(RedeemError::Expired));
}

#[test]
fn token_is_single_use() {
    let mut store = PairingStore::new();
    let (token, _) = store.create_token(None, PAIRING_TTL_SECS, NOW).expect("mint");
    assert_eq!(store.consume_token(&token, NOW), Ok(None));
    assert_eq!(store.consume_token(&token, NOW), Err(RedeemError::AlreadyUsed));
}

#[test]
fn unknown_token_is_rejected() {
    let mut store = PairingStore::new();
    let _ = store.create_token(None, PAIRING_TTL_SECS, NOW).expect("mint");
    assert_eq!(store.consume_token("hbp_not-a-real-token", NOW), Err(RedeemError::Unknown));
}

#[test]
fn plaintext_token_is_never_stored() {
    let mut store = PairingStore::new();
    let (token, _) = store.create_token(None, PAIRING_TTL_SECS, NOW).expect("mint");

    let stored = store.token_hashes();
    assert_eq!(stored.len(), 1);
    assert_ne!(stored[0], token);
    assert_eq!(stored[0], hash_token(&token));
    assert_eq!(store.consume_token(&stored[0], NOW), Err(RedeemError::Unknown));
}

#[test]
fn each_token_is_distinct() {
    let mut store = PairingStore::new();
    let (a, _) = store.create_token(None, PAIRING_TTL_SECS, NOW).expect("mint");
    let (b, _) = store.create_token(None, PAIRING_TTL_SECS, NOW).expect("mint");
    assert_ne!(a, b);
    assert_eq!(a.len(), 4 + 64);
}

#[test]
fn a_token_dies_at_its_expiry_second() {
    let mut store = PairingStore::new();
    let (token, expires) = store.create_token(None, 30, NOW).expect("mint");
    assert_eq!(store.consume_token(&token, expires - 1), Ok(None));
    let (late, expires) = store.create_token(None, 30, NOW).expect("mint");
    assert_eq!(store.consume_token(&late, expires), Err(RedeemError::Expired));
}

#[test]
fn a_redeemed_token_past_its_expiry_reports_expired() {
    let mut store = PairingStore::new();
    let (token, expires_at) = store.create_token(None, 60, NOW).expect("mint");
    assert_eq!(store.consume_token(&token, NOW), Ok(None));
    assert_eq!(store.consume_token(&token, NOW + 1), Err(RedeemError::AlreadyUsed));
    assert_eq!(store.consume_token(&token, expires_at), Err(RedeemError::Expired));
}

#[test]
fn inserting_a_stored_token_is_refused() {
    let mut store = PairingStore::new();
    assert_eq!(store.insert_token("hbp_abc", Some("u1"), NOW + 60), Ok(()));
    assert_eq!(store.insert_token("hbp_abc", None, NOW + 60), Err(RedeemError::Storage));
    assert_eq!(store.token_hashes(), vec![hash_token("hbp_abc")]);
    assert_eq!(store.consume_token("hbp_abc", NOW), Ok(Some("u1".to_string())));
}

#[test]
fn a_store_from_rows_redeems_them() {
    let rows = vec![
        (hash_token("hbp_live"), Some("u1".to_string()), NOW + 60, false),
        (hash_token("hbp_used"), None, NOW + 60, true),
    ];
    let mut store = PairingStore::from_records(rows);
    assert_eq!(store.consume_token("hbp_live", NOW), Ok(Some("u1".to_string())));
    assert_eq!(store.consume_token("hbp_used", NOW), Err(RedeemError::AlreadyUsed));
    assert_eq!(store.consume_token("hbp_other", NOW), Err(RedeemError::Unknown));
}

#[test]
fn redemption_answers_follow_the_rate_limit_then_the_token() {
    let mut store = PairingStore::new();
    let (token, _) = store.create_token(Some("user-1"), PAIRING_TTL_SECS, NOW).expect("mint");
    assert!(matches!(store.redeem_pairing(Err(42), &token, NOW), RedeemAnswer::RateLimited(42)));
    match store.redeem_pairing(Ok(()), &format!("  {token} \n"), NOW) {
        RedeemAnswer::Issue { owner, multi_user } => {
            assert_eq!(owner, "user-1");
            assert!(multi_user);
        }
        _ => panic!("expected a credential"),
    }
    match store.redeem_pairing(Ok(()), &token, NOW) {
        RedeemAnswer::Refused(e) => {
            assert_eq!(e, RedeemError::AlreadyUsed);
            assert_eq!(refusal_status(&e), (409, Some("already_used")));
        }
        _ => panic!("expected a refusal"),
    }
    let (local, _) = store.create_token(None, PAIRING_TTL_SECS, NOW).expect("mint");
    match store.redeem_pairing(Ok(()), &local, NOW) {
        RedeemAnswer::Issue { owner, multi_user } => {
            assert_eq!(owner, "local-admin");
            assert!(!multi_user);
        }
        _ => panic!("expected a credential"),
    }
    assert_eq!(refusal_status(&RedeemError::Expired), (410, Some("expired")));
    assert_eq!(refusal_status(&RedeemError::Unknown), (404, Some("unknown")));
    assert_eq!(refusal_status(&RedeemError::Storage), (500, None));
}
