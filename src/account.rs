//! The account-lookup client's logic: how a request is shaped, and how what
//! came back is classified into a snapshot or a failure.

use vstd::prelude::*;

verus! {

/// A point-in-time view of chain state for one stake credential.
/// Amounts are decimal strings, carried as they came.
pub struct AccountInfo {
    pub stake_address: String,
    pub active: bool,
    pub controlled_amount: String,
    pub rewards_sum: String,
}

/// Why an account lookup did not yield a snapshot.
#[derive(Clone, Copy, Debug, PartialEq, Eq, Structural)]
pub enum AccountError {
    /// The request did not complete (connection, TLS, reading the body).
    Transport,
    /// The service answered with a status outside the success range.
    UpstreamStatus(u16),
    /// The body did not decode into the snapshot shape.
    Parse,
}

/// What one attempt at the account endpoint produced, as the transport saw it.
pub enum FetchOutcome {
    /// No response could be obtained.
    TransportFailed,
    /// A response arrived; `decoded` is the body read as a snapshot, if it
    /// could be.
    Responded { status: u16, decoded: Option<AccountInfo> },
}

pub open spec fn is_success_status(status: u16) -> bool {
    200 <= status && status <= 299
}

/// The snapshot or the failure that an outcome stands for.
pub open spec fn classified(outcome: FetchOutcome) -> Result<AccountInfo, AccountError> {
    match outcome {
        FetchOutcome::TransportFailed => Err(AccountError::Transport),
        FetchOutcome::Responded { status, decoded } => {
            if !is_success_status(status) {
                Err(AccountError::UpstreamStatus(status))
            } else {
                match decoded {
                    Some(info) => Ok(info),
                    None => Err(AccountError::Parse),
                }
            }
        },
    }
}

/// Classifies one attempt: a missing response or a non-success status is an
/// upstream error, a success whose body did not decode is a parse error.
pub fn classify_account_response(outcome: FetchOutcome) -> (r: Result<AccountInfo, AccountError>)
    ensures
        r == classified(outcome),
{
    match outcome {
        FetchOutcome::TransportFailed => Err(AccountError::Transport),
        FetchOutcome::Responded { status, decoded } => {
            if status < 200 || status > 299 {
                Err(AccountError::UpstreamStatus(status))
            } else {
                match decoded {
                    Some(info) => Ok(info),
                    None => Err(AccountError::Parse),
                }
            }
        },
    }
}

/// Where and how account lookups are sent: the service's base endpoint and
/// the key that authenticates each request.
pub struct CardanoService {
    api_key: String,
    base_url: String,
}

impl CardanoService {
    pub closed spec fn api_key(&self) -> String {
        self.api_key
    }

    pub closed spec fn base_url(&self) -> String {
        self.base_url
    }

    pub fn new(api_key: String, base_url: String) -> (s: CardanoService)
        ensures
            s.api_key() == api_key,
            s.base_url() == base_url,
    {
        CardanoService { api_key, base_url }
    }

    /// The endpoint of one stake credential: `{base}/accounts/{stake_key}`.
    pub fn account_url(&self, stake_key: &str) -> (r: String)
        ensures
            r@ == self.base_url()@ + "/accounts/"@ + stake_key@,
    {
        let mut url = self.base_url.clone();
        url.append("/accounts/");
        url.append(stake_key);
        url
    }

    /// The header that authenticates a request: `project_id: {api_key}`.
    pub fn auth_header(&self) -> (r: (String, String))
        ensures
            r.0@ == "project_id"@,
            r.1@ == self.api_key()@,
    {
        (String::from_str("project_id"), self.api_key.clone())
    }
}

} // verus!
