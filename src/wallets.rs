//! The wallet paths: creating a wallet for a user, and reading one back
//! merged with its live account snapshot.

use vstd::prelude::*;
use crate::account::{
    AccountError, AccountInfo, FetchOutcome, classified, classify_account_response, is_success_status,
};
use crate::records::{
    RecordStore, StoreError, WalletRecord, has_user, has_wallet, wallet_by_id, wallet_by_stake_key,
    wallet_inserted,
};

verus! {

/// A request to create a wallet.
pub struct CreateWalletRequest {
    pub user_id: i32,
    pub stake_key: String,
    pub wallet_type: Option<String>,
}

/// A wallet as the caller sees it: its identity and its on-chain state.
pub struct WalletDataResponse {
    pub id: i32,
    pub stake_key: String,
    pub active: bool,
    pub balance: String,
    pub rewards: String,
    pub wallet_type: Option<String>,
}

/// The outcomes of a request other than success.
#[derive(Clone, Copy, Debug, PartialEq, Eq, Structural)]
pub enum ServiceError {
    /// A required field of the request is missing or empty.
    Validation,
    /// No record matches.
    NotFound,
    /// The record to attach to does not exist.
    ForeignKeyViolation,
    /// The account service could not be used for this request; the cause is
    /// kept for diagnostics only.
    UpstreamUnavailable(AccountError),
    /// The store failed.
    Storage,
}

pub open spec fn status_of(e: ServiceError) -> u16 {
    match e {
        ServiceError::Validation => 400,
        ServiceError::NotFound => 404,
        ServiceError::ForeignKeyViolation => 409,
        ServiceError::UpstreamUnavailable(_) => 502,
        ServiceError::Storage => 500,
    }
}

impl ServiceError {
    /// The HTTP status that answers this outcome. Both kinds of account
    /// failure give the same one.
    pub fn status_code(&self) -> (r: u16)
        ensures
            r == status_of(*self),
    {
        match self {
            ServiceError::Validation => 400,
            ServiceError::NotFound => 404,
            ServiceError::ForeignKeyViolation => 409,
            ServiceError::UpstreamUnavailable(_) => 502,
            ServiceError::Storage => 500,
        }
    }

    pub open spec fn from_store_spec(e: StoreError) -> ServiceError {
        match e {
            StoreError::NotFound => ServiceError::NotFound,
            StoreError::ForeignKeyViolation => ServiceError::ForeignKeyViolation,
            StoreError::Storage => ServiceError::Storage,
        }
    }

    pub fn from_store(e: StoreError) -> (r: ServiceError)
        ensures
            r == Self::from_store_spec(e),
    {
        match e {
            StoreError::NotFound => ServiceError::NotFound,
            StoreError::ForeignKeyViolation => ServiceError::ForeignKeyViolation,
            StoreError::Storage => ServiceError::Storage,
        }
    }
}

/// The fields of a wallet to be created, once the request has been checked.
pub struct NewWallet {
    pub user_id: i32,
    pub stake_key: String,
    pub wallet_type: String,
}

/// A request names a wallet kind and a non-empty stake credential.
pub open spec fn request_valid(req: CreateWalletRequest) -> bool {
    req.wallet_type is Some && req.stake_key@.len() > 0
}

/// Checks a creation request. A missing wallet kind or an empty stake
/// credential is the caller's error.
pub fn validate_create_wallet(req: CreateWalletRequest) -> (r: Result<NewWallet, ServiceError>)
    ensures
        !request_valid(req) ==> r == Err::<NewWallet, ServiceError>(ServiceError::Validation),
        request_valid(req) ==> r == Ok::<NewWallet, ServiceError>(
            NewWallet {
                user_id: req.user_id,
                stake_key: req.stake_key,
                wallet_type: req.wallet_type->Some_0,
            },
        ),
{
    match req.wallet_type {
        None => Err(ServiceError::Validation),
        Some(wallet_type) => {
            if req.stake_key.as_str().is_empty() {
                Err(ServiceError::Validation)
            } else {
                Ok(NewWallet { user_id: req.user_id, stake_key: req.stake_key, wallet_type })
            }
        },
    }
}

/// `resp` is the provisional view of the new wallet `w`: inactive, with a
/// zero balance and zero rewards, no account lookup made.
pub open spec fn is_new_wallet_response(resp: WalletDataResponse, w: WalletRecord) -> bool {
    &&& resp.id == w.id
    &&& resp.stake_key == w.stake_key
    &&& resp.wallet_type == Some(w.wallet_type)
    &&& !resp.active
    &&& resp.balance@ == "0"@
    &&& resp.rewards@ == "0"@
}

/// The answer to a successful creation.
pub fn created_wallet_response(w: WalletRecord) -> (r: WalletDataResponse)
    ensures
        is_new_wallet_response(r, w),
{
    WalletDataResponse {
        id: w.id,
        stake_key: w.stake_key,
        active: false,
        balance: String::from_str("0"),
        rewards: String::from_str("0"),
        wallet_type: Some(w.wallet_type),
    }
}

/// Creates a wallet in `store` from a request. An invalid request is refused
/// before the store is touched.
pub fn register_wallet(store: &mut RecordStore, req: CreateWalletRequest, now: i64) -> (r: Result<
    WalletDataResponse,
    ServiceError,
>)
    requires
        old(store).wf(),
    ensures
        final(store).wf(),
        !request_valid(req) ==> r == Err::<WalletDataResponse, ServiceError>(
            ServiceError::Validation,
        ) && *final(store) == *old(store),
        request_valid(req) ==> match r {
            Ok(resp) => {
                &&& wallet_inserted(
                    *old(store),
                    *final(store),
                    req.user_id,
                    req.stake_key,
                    req.wallet_type->Some_0,
                    now,
                    final(store).wallets().last(),
                )
                &&& is_new_wallet_response(resp, final(store).wallets().last())
            },
            Err(e) => {
                &&& *final(store) == *old(store)
                &&& e == if has_user(old(store).users(), req.user_id) {
                    ServiceError::Storage
                } else {
                    ServiceError::ForeignKeyViolation
                }
                &&& e == ServiceError::Storage ==> old(store).next_wallet_id() == i32::MAX
            },
        },
{
    let new_wallet = match validate_create_wallet(req) {
        Ok(n) => n,
        Err(e) => {
            return Err(e);
        },
    };
    match store.create_wallet(new_wallet.user_id, new_wallet.stake_key, new_wallet.wallet_type, now) {
        Ok(w) => Ok(created_wallet_response(w)),
        Err(e) => Err(ServiceError::from_store(e)),
    }
}

/// What the read path does next.
pub enum WalletQueryAction {
    /// Look up the account of this wallet's stake credential, then hand the
    /// wallet and the result to `on_account_fetched`.
    FetchAccount(WalletRecord),
    /// Answer the request; the lookup is over and no account call is made.
    Respond(Result<WalletDataResponse, ServiceError>),
}

pub open spec fn resolved_action(found: Result<Option<WalletRecord>, StoreError>) -> WalletQueryAction {
    match found {
        Ok(Some(w)) => WalletQueryAction::FetchAccount(w),
        Ok(None) => WalletQueryAction::Respond(Err(ServiceError::NotFound)),
        Err(_) => WalletQueryAction::Respond(Err(ServiceError::Storage)),
    }
}

/// First step of a read: the store's answer decides whether the account
/// service is called at all.
pub fn on_wallet_resolved(found: Result<Option<WalletRecord>, StoreError>) -> (r: WalletQueryAction)
    ensures
        r == resolved_action(found),
{
    match found {
        Ok(Some(w)) => WalletQueryAction::FetchAccount(w),
        Ok(None) => WalletQueryAction::Respond(Err(ServiceError::NotFound)),
        Err(_) => WalletQueryAction::Respond(Err(ServiceError::Storage)),
    }
}

/// The wallet merged with its account snapshot, or the upstream-unavailable
/// outcome when there is no snapshot.
pub open spec fn merged(wallet: WalletRecord, fetched: Result<AccountInfo, AccountError>) -> Result<
    WalletDataResponse,
    ServiceError,
> {
    match fetched {
        Ok(info) => Ok(
            WalletDataResponse {
                id: wallet.id,
                stake_key: wallet.stake_key,
                active: info.active,
                balance: info.controlled_amount,
                rewards: info.rewards_sum,
                wallet_type: Some(wallet.wallet_type),
            },
        ),
        Err(e) => Err(ServiceError::UpstreamUnavailable(e)),
    }
}

/// Last step of a read: identity from the store, state from the snapshot.
/// No stale or zero values stand in for a missing snapshot.
pub fn on_account_fetched(wallet: WalletRecord, fetched: Result<AccountInfo, AccountError>) -> (r:
    Result<WalletDataResponse, ServiceError>)
    ensures
        r == merged(wallet, fetched),
{
    match fetched {
        Ok(info) => Ok(
            WalletDataResponse {
                id: wallet.id,
                stake_key: wallet.stake_key,
                active: info.active,
                balance: info.controlled_amount,
                rewards: info.rewards_sum,
                wallet_type: Some(wallet.wallet_type),
            },
        ),
        Err(e) => Err(ServiceError::UpstreamUnavailable(e)),
    }
}

/// Last step of a read, from what the transport produced.
pub fn complete_wallet_query(wallet: WalletRecord, outcome: FetchOutcome) -> (r: Result<
    WalletDataResponse,
    ServiceError,
>)
    ensures
        r == merged(wallet, classified(outcome)),
{
    on_account_fetched(wallet, classify_account_response(outcome))
}

/// First step of a read by wallet id, against `store`.
pub fn start_wallet_query(store: &RecordStore, wallet_id: i32) -> (r: WalletQueryAction)
    requires
        store.wf(),
    ensures
        r == resolved_action(Ok(wallet_by_id(store.wallets(), wallet_id))),
{
    on_wallet_resolved(Ok(store.find_wallet_by_id(wallet_id)))
}

/// First step of a read by stake credential, against `store`.
pub fn start_wallet_query_by_stake_key(store: &RecordStore, stake_key: &String) -> (r:
    WalletQueryAction)
    ensures
        r == resolved_action(Ok(wallet_by_stake_key(store.wallets(), stake_key@))),
{
    on_wallet_resolved(Ok(store.find_wallet_by_stake_key(stake_key)))
}

/// A read of a wallet id that no wallet has answers `NotFound` at once: the
/// account service is never called.
pub proof fn lemma_missing_wallet_not_found(store: RecordStore, wallet_id: i32)
    requires
        store.wf(),
        !has_wallet(store.wallets(), wallet_id),
    ensures
        resolved_action(Ok(wallet_by_id(store.wallets(), wallet_id))) == WalletQueryAction::Respond(
            Err(ServiceError::NotFound),
        ),
{
}

/// A read whose account lookup succeeded and decoded answers with the
/// snapshot's activity, balance and rewards, and with the wallet's own id,
/// stake credential and kind.
pub proof fn lemma_snapshot_merged(wallet: WalletRecord, status: u16, info: AccountInfo)
    requires
        is_success_status(status),
    ensures
        merged(wallet, classified(FetchOutcome::Responded { status, decoded: Some(info) })) == Ok::<
            WalletDataResponse,
            ServiceError,
        >(
            WalletDataResponse {
                id: wallet.id,
                stake_key: wallet.stake_key,
                active: info.active,
                balance: info.controlled_amount,
                rewards: info.rewards_sum,
                wallet_type: Some(wallet.wallet_type),
            },
        ),
{
}

/// A read whose account lookup failed in transport, answered with a
/// non-success status, or returned a body that did not decode, answers
/// upstream-unavailable and carries no balance or rewards.
pub proof fn lemma_failed_lookup_unavailable(wallet: WalletRecord, outcome: FetchOutcome)
    requires
        match outcome {
            FetchOutcome::TransportFailed => true,
            FetchOutcome::Responded { status, decoded } => !is_success_status(status)
                || decoded is None,
        },
    ensures
        merged(wallet, classified(outcome)) matches Err(ServiceError::UpstreamUnavailable(_)),
{
}

/// The balance and rewards that a read answers with are the decimal strings
/// of the snapshot, character for character, however large the amounts: they
/// are never read as numbers.
pub proof fn lemma_amounts_carried_verbatim(wallet: WalletRecord, status: u16, info: AccountInfo)
    requires
        is_success_status(status),
    ensures
        merged(wallet, classified(FetchOutcome::Responded { status, decoded: Some(info) })) matches Ok(
            resp,
        ) && resp.balance@ == info.controlled_amount@ && resp.rewards@ == info.rewards_sum@,
{
}

} // verus!
