//! The user path: creating the bare user that wallets attach to.

use vstd::prelude::*;
use crate::records::{RecordStore, UserRecord};
use crate::wallets::ServiceError;

verus! {

/// A request to create a user; it carries no fields.
pub struct CreateUserRequest {}

/// The created user, as the caller sees it.
#[derive(Clone, Copy, Debug, PartialEq, Eq, Structural)]
pub struct UserResponse {
    pub id: i32,
}

pub fn user_response(u: UserRecord) -> (r: UserResponse)
    ensures
        r.id == u.id,
{
    UserResponse { id: u.id }
}

/// Creates a user in `store`; it fails only when the store does.
pub fn register_user(store: &mut RecordStore, req: CreateUserRequest, now: i64) -> (r: Result<
    UserResponse,
    ServiceError,
>)
    requires
        old(store).wf(),
    ensures
        final(store).wf(),
        match r {
            Ok(resp) => {
                &&& old(store).next_user_id() < i32::MAX
                &&& resp.id == old(store).next_user_id()
                &&& final(store).users() == old(store).users().push(
                    UserRecord { id: resp.id, created_at: now, updated_at: now },
                )
                &&& final(store).wallets() == old(store).wallets()
                &&& final(store).addresses() == old(store).addresses()
            },
            Err(e) => {
                &&& e == ServiceError::Storage
                &&& old(store).next_user_id() == i32::MAX
                &&& *final(store) == *old(store)
            },
        },
{
    match store.create_user(now) {
        Ok(u) => Ok(user_response(u)),
        Err(_) => Err(ServiceError::Storage),
    }
}

} // verus!
