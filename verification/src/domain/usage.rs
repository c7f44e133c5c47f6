//! Usage of an organization: active users, stored bytes, calendar accounts.
use vstd::prelude::*;

verus! {

#[derive(Clone, Copy, Debug, PartialEq, Eq)]
pub struct UsageSummary {
    pub organization_id: u128,
    pub active_users: i64,
    pub stored_file_bytes: i64,
    pub calendar_connected_accounts: i64,
}

#[derive(Clone, Copy, Debug, PartialEq, Eq)]
pub enum UsageError {
    StoreUnavailable,
}

impl UsageError {
    pub fn status_code(&self) -> (r: u16)
        ensures
            r == 500,
    {
        match self {
            UsageError::StoreUnavailable => 500,
        }
    }

    pub fn code(&self) -> (r: &'static str)
        ensures
            r@ == "usage_store_unavailable"@,
    {
        match self {
            UsageError::StoreUnavailable => "usage_store_unavailable",
        }
    }

    pub fn message(&self) -> (r: &'static str)
        ensures
            r@ == "usage store is unavailable"@,
    {
        match self {
            UsageError::StoreUnavailable => "usage store is unavailable",
        }
    }
}

/// The usage of an organization from what the stores report: the active
/// members, the bytes of its files and the calendar accounts of those
/// members (`summary` after its store calls).
pub fn usage_summary(
    organization_id: u128,
    active_member_user_ids: &Vec<u128>,
    stored_file_bytes: i64,
    calendar_connected_accounts: i64,
) -> (r: UsageSummary)
    requires
        active_member_user_ids.len() <= i64::MAX,
    ensures
        r == (UsageSummary {
            organization_id,
            active_users: active_member_user_ids@.len() as i64,
            stored_file_bytes,
            calendar_connected_accounts,
        }),
{
    UsageSummary {
        organization_id,
        active_users: active_member_user_ids.len() as i64,
        stored_file_bytes,
        calendar_connected_accounts,
    }
}

} // verus!
