//! The credential record shared with the assistant process.
use vstd::prelude::*;

verus! {

/// Credentials handed over by the user interface.
#[derive(Debug)]
pub struct AuthData {
    pub access_token: String,
    pub subscription_status: String,
    pub user_id: String,
}

/// The credentials as cached for the assistant, with the time they were
/// last confirmed.
#[derive(Debug)]
pub struct AuthCache {
    pub access_token: String,
    pub subscription_status: String,
    pub user_id: String,
    pub last_validated: String,
}

impl AuthCache {
    /// The cache record for `data`, confirmed at `last_validated`.
    pub fn validated(data: AuthData, last_validated: String) -> (c: AuthCache)
        ensures
            c.access_token == data.access_token,
            c.subscription_status == data.subscription_status,
            c.user_id == data.user_id,
            c.last_validated == last_validated,
    {
        AuthCache {
            access_token: data.access_token,
            subscription_status: data.subscription_status,
            user_id: data.user_id,
            last_validated,
        }
    }
}

} // verus!
