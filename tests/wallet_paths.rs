use wallet_backend::account::{AccountError, AccountInfo, FetchOutcome};
use wallet_backend::records::{RecordStore, StoreError, WalletRecord};
use wallet_backend::users::{register_user, CreateUserRequest};
use wallet_backend::wallets::{
    complete_wallet_query, created_wallet_response, on_account_fetched, on_wallet_resolved,
    register_wallet, start_wallet_query, start_wallet_query_by_stake_key, validate_create_wallet,
    CreateWalletRequest, ServiceError, WalletQueryAction,
};

fn request(user_id: i32, stake_key: &str, wallet_type: Option<&str>) -> CreateWalletRequest {
    CreateWalletRequest {
        user_id,
        stake_key: stake_key.to_string(),
        wallet_type: wallet_type.map(|t| t.to_string()),
    }
}

fn wallet(id: i32, stake_key: &str, wallet_type: &str) -> WalletRecord {
    WalletRecord {
        id,
        user_id: 1,
        stake_key: stake_key.to_string(),
        wallet_type: wallet_type.to_string(),
        created_at: 10,
        updated_at: 10,
    }
}

fn snapshot(active: bool, amount: &str, rewards: &str) -> AccountInfo {
    AccountInfo {
        stake_address: "stake1u9".to_string(),
        active,
        controlled_amount: amount.to_string(),
        rewards_sum: rewards.to_string(),
    }
}

#[test]
fn users_get_increasing_ids() {
    let mut store = RecordStore::new();
    assert_eq!(register_user(&mut store, CreateUserRequest {}, 1).unwrap().id, 1);
    assert_eq!(register_user(&mut store, CreateUserRequest {}, 2).unwrap().id, 2);
    assert_eq!(store.user_count(), 2);
    assert!(store.user_exists(2));
    assert!(!store.user_exists(3));
}

#[test]
fn created_wallet_is_found_by_id() {
    let mut store = RecordStore::new();
    let user = store.create_user(100).unwrap();
    let created = store
        .create_wallet(user.id, "stake1uabc".to_string(), "custodial".to_string(), 101)
        .unwrap();
    assert_eq!(created.id, 1);
    assert_eq!(created.created_at, 101);
    assert_eq!(created.updated_at, 101);
    let found = store.find_wallet_by_id(created.id).unwrap();
    assert_eq!(found.stake_key, "stake1uabc");
    assert_eq!(found.wallet_type, "custodial");
    assert_eq!(found.user_id, user.id);
    assert!(store.find_wallet_by_id(created.id + 1).is_none());
}

#[test]
fn wallet_for_missing_user_is_refused_and_not_stored() {
    let mut store = RecordStore::new();
    store.create_user(1).unwrap();
    let r = store.create_wallet(7, "stake1u".to_string(), "external".to_string(), 2);
    assert_eq!(r.err(), Some(StoreError::ForeignKeyViolation));
    assert_eq!(store.wallet_count(), 0);
    let r = register_wallet(&mut store, request(7, "stake1u", Some("external")), 3);
    assert_eq!(r.err(), Some(ServiceError::ForeignKeyViolation));
    assert_eq!(store.wallet_count(), 0);
}

#[test]
fn address_for_missing_wallet_is_refused() {
    let mut store = RecordStore::new();
    let r = store.create_address(1, "addr1q".to_string(), 0);
    assert_eq!(r.err(), Some(StoreError::ForeignKeyViolation));
    assert_eq!(store.address_count(), 0);
}

#[test]
fn missing_wallet_kind_is_a_validation_error() {
    let mut store = RecordStore::new();
    store.create_user(1).unwrap();
    let r = register_wallet(&mut store, request(1, "stake1u", None), 2);
    assert_eq!(r.err(), Some(ServiceError::Validation));
    assert_eq!(store.wallet_count(), 0);
}

#[test]
fn empty_stake_credential_is_a_validation_error() {
    assert_eq!(
        validate_create_wallet(request(1, "", Some("external"))).err(),
        Some(ServiceError::Validation)
    );
    let ok = validate_create_wallet(request(4, "stake1u", Some("external"))).ok().unwrap();
    assert_eq!(ok.user_id, 4);
    assert_eq!(ok.stake_key, "stake1u");
    assert_eq!(ok.wallet_type, "external");
}

#[test]
fn new_wallet_response_is_provisional() {
    let mut store = RecordStore::new();
    store.create_user(1).unwrap();
    let resp = register_wallet(&mut store, request(1, "stake1uq", Some("external")), 2).unwrap();
    assert_eq!(resp.id, 1);
    assert_eq!(resp.stake_key, "stake1uq");
    assert_eq!(resp.wallet_type, Some("external".to_string()));
    assert!(!resp.active);
    assert_eq!(resp.balance, "0");
    assert_eq!(resp.rewards, "0");
    assert_eq!(store.wallet_count(), 1);
    let direct = created_wallet_response(wallet(9, "k", "t"));
    assert_eq!(direct.id, 9);
    assert_eq!(direct.balance, "0");
}

#[test]
fn lookup_by_stake_key_is_exact() {
    let mut store = RecordStore::new();
    store.create_user(1).unwrap();
    store.create_wallet(1, "stake1uAbC".to_string(), "a".to_string(), 2).unwrap();
    store.create_wallet(1, "stake1uabc".to_string(), "b".to_string(), 3).unwrap();
    store.create_wallet(1, "stake1uabc".to_string(), "c".to_string(), 4).unwrap();
    let found = store.find_wallet_by_stake_key(&"stake1uabc".to_string()).unwrap();
    assert_eq!(found.id, 2);
    assert_eq!(found.wallet_type, "b");
    assert!(store.find_wallet_by_stake_key(&"STAKE1UABC".to_string()).is_none());
    match start_wallet_query_by_stake_key(&store, &"stake1uAbC".to_string()) {
        WalletQueryAction::FetchAccount(w) => assert_eq!(w.id, 1),
        WalletQueryAction::Respond(_) => panic!("expected an account lookup"),
    }
}

#[test]
fn missing_wallet_answers_not_found_without_lookup() {
    let store = RecordStore::new();
    match start_wallet_query(&store, 42) {
        WalletQueryAction::Respond(r) => assert_eq!(r.err(), Some(ServiceError::NotFound)),
        WalletQueryAction::FetchAccount(_) => panic!("no account lookup is owed"),
    }
    match on_wallet_resolved(Err(StoreError::Storage)) {
        WalletQueryAction::Respond(r) => assert_eq!(r.err(), Some(ServiceError::Storage)),
        WalletQueryAction::FetchAccount(_) => panic!("no account lookup is owed"),
    }
}

#[test]
fn existing_wallet_asks_for_its_account() {
    let mut store = RecordStore::new();
    store.create_user(1).unwrap();
    store.create_wallet(1, "stake1uz".to_string(), "external".to_string(), 2).unwrap();
    match start_wallet_query(&store, 1) {
        WalletQueryAction::FetchAccount(w) => assert_eq!(w.stake_key, "stake1uz"),
        WalletQueryAction::Respond(_) => panic!("expected an account lookup"),
    }
}

#[test]
fn snapshot_is_merged_with_wallet_identity() {
    let r = complete_wallet_query(
        wallet(5, "stake1u5", "custodial"),
        FetchOutcome::Responded {
            status: 200,
            decoded: Some(snapshot(true, "4500000", "120")),
        },
    )
    .ok()
    .unwrap();
    assert_eq!(r.id, 5);
    assert_eq!(r.stake_key, "stake1u5");
    assert_eq!(r.wallet_type, Some("custodial".to_string()));
    assert!(r.active);
    assert_eq!(r.balance, "4500000");
    assert_eq!(r.rewards, "120");
}

#[test]
fn failed_lookup_is_upstream_unavailable() {
    let w = || wallet(5, "stake1u5", "custodial");
    let r = complete_wallet_query(
        w(),
        FetchOutcome::Responded {
            status: 200,
            decoded: None,
        },
    );
    assert_eq!(r.err(), Some(ServiceError::UpstreamUnavailable(AccountError::Parse)));
    let r = complete_wallet_query(
        w(),
        FetchOutcome::Responded {
            status: 403,
            decoded: Some(snapshot(true, "1", "1")),
        },
    );
    assert_eq!(
        r.err(),
        Some(ServiceError::UpstreamUnavailable(AccountError::UpstreamStatus(403)))
    );
    let r = complete_wallet_query(w(), FetchOutcome::TransportFailed);
    assert_eq!(r.err(), Some(ServiceError::UpstreamUnavailable(AccountError::Transport)));
    let r = on_account_fetched(w(), Err(AccountError::Parse));
    assert_eq!(r.err().map(|e| e.status_code()), Some(502));
}

#[test]
fn large_amounts_pass_through_unchanged() {
    let r = on_account_fetched(
        wallet(1, "k", "t"),
        Ok(snapshot(false, "9007199254740993", "18446744073709551617")),
    )
    .ok()
    .unwrap();
    assert_eq!(r.balance, "9007199254740993");
    assert_eq!(r.rewards, "18446744073709551617");
    assert!(!r.active);
}

#[test]
fn status_codes_of_each_outcome() {
    assert_eq!(ServiceError::Validation.status_code(), 400);
    assert_eq!(ServiceError::NotFound.status_code(), 404);
    assert_eq!(ServiceError::ForeignKeyViolation.status_code(), 409);
    assert_eq!(ServiceError::UpstreamUnavailable(AccountError::Transport).status_code(), 502);
    assert_eq!(ServiceError::Storage.status_code(), 500);
    assert_eq!(ServiceError::from_store(StoreError::NotFound), ServiceError::NotFound);
    assert_eq!(
        ServiceError::from_store(StoreError::ForeignKeyViolation),
        ServiceError::ForeignKeyViolation
    );
    assert_eq!(ServiceError::from_store(StoreError::Storage), ServiceError::Storage);
}

#[test]
fn deleting_a_user_cascades_to_wallets_and_addresses() {
    let mut store = RecordStore::new();
    let gone = store.create_user(1).unwrap();
    let kept = store.create_user(1).unwrap();
    let w1 = store.create_wallet(gone.id, "s1".to_string(), "a".to_string(), 2).unwrap();
    let w2 = store.create_wallet(gone.id, "s2".to_string(), "a".to_string(), 2).unwrap();
    let w3 = store.create_wallet(kept.id, "s3".to_string(), "a".to_string(), 2).unwrap();
    store.create_address(w1.id, "addr1".to_string(), 3).unwrap();
    store.create_address(w2.id, "addr2".to_string(), 3).unwrap();
    store.create_address(w2.id, "addr3".to_string(), 3).unwrap();
    let a4 = store.create_address(w3.id, "addr4".to_string(), 3).unwrap();
    assert_eq!(a4.id, 4);
    assert!(store.delete_user(gone.id).is_ok());
    assert!(!store.user_exists(gone.id));
    assert!(store.user_exists(kept.id));
    assert_eq!(store.user_count(), 1);
    assert_eq!(store.wallet_count(), 1);
    assert_eq!(store.address_count(), 1);
    assert!(store.find_wallet_by_id(w1.id).is_none());
    assert!(store.find_wallet_by_id(w2.id).is_none());
    assert!(store.wallet_exists(w3.id));
    assert_eq!(store.delete_user(gone.id).err(), Some(StoreError::NotFound));
    let again = store.create_wallet(kept.id, "s4".to_string(), "b".to_string(), 5).unwrap();
    assert_eq!(again.id, 4);
}
