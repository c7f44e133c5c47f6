//! The audit trail: events recorded for actions in a space.
use vstd::prelude::*;

use crate::domain::json::JsonValue;
use crate::text::{string_of, trim_seq, trimmed, utf8_len, utf8_len_at_most};

verus! {

#[derive(Debug)]
pub struct AuditEvent {
    pub id: u128,
    pub organization_id: u128,
    pub space_id: u128,
    pub actor_user_id: u128,
    pub action: String,
    pub target_type: String,
    pub target_id: u128,
    pub metadata: JsonValue,
    pub created_at: String,
}

#[derive(Debug)]
pub struct NewAuditEvent {
    pub organization_id: u128,
    pub space_id: u128,
    pub actor_user_id: u128,
    pub action: &'static str,
    pub target_type: &'static str,
    pub target_id: u128,
    pub metadata: JsonValue,
}

#[derive(Clone, Copy, Debug, PartialEq, Eq)]
pub enum AuditError {
    InvalidInput(&'static str),
    StoreUnavailable,
}

impl AuditError {
    pub fn status_code(&self) -> (r: u16)
        ensures
            r == (match self {
                AuditError::InvalidInput(_) => 400u16,
                AuditError::StoreUnavailable => 500,
            }),
    {
        match self {
            AuditError::InvalidInput(_) => 400,
            AuditError::StoreUnavailable => 500,
        }
    }

    pub fn code(&self) -> (r: &'static str)
        ensures
            r@ == (match self {
                AuditError::InvalidInput(_) => "invalid_request"@,
                AuditError::StoreUnavailable => "audit_store_unavailable"@,
            }),
    {
        match self {
            AuditError::InvalidInput(_) => "invalid_request",
            AuditError::StoreUnavailable => "audit_store_unavailable",
        }
    }

    pub fn message(&self) -> (r: &'static str)
        ensures
            r@ == (match self {
                AuditError::InvalidInput(m) => m@,
                AuditError::StoreUnavailable => "audit store is unavailable"@,
            }),
    {
        match self {
            AuditError::InvalidInput(m) => m,
            AuditError::StoreUnavailable => "audit store is unavailable",
        }
    }
}

/// A label: trimmed, 1 to 120 bytes.
pub open spec fn valid_label(l: Seq<char>) -> bool {
    l.len() > 0 && utf8_len(l) <= 120
}

pub fn normalize_label(value: &str, message: &'static str) -> (r: Result<String, AuditError>)
    ensures
        match r {
            Ok(s) => valid_label(trim_seq(value@)) && s@ == trim_seq(value@),
            Err(e) => !valid_label(trim_seq(value@)) && e == AuditError::InvalidInput(message),
        },
{
    let v = trimmed(value);
    if v.len() == 0 || !utf8_len_at_most(&v, 120) {
        Err(AuditError::InvalidInput(message))
    } else {
        Ok(string_of(&v))
    }
}

/// The event to store (`record` before the store call): the action, then
/// the target type, must be labels.
pub fn new_audit_event(id: u128, created_at: String, input: NewAuditEvent) -> (r: Result<AuditEvent, AuditError>)
    ensures
        match r {
            Ok(e) => {
                &&& valid_label(trim_seq(input.action@)) && e.action@ == trim_seq(input.action@)
                &&& valid_label(trim_seq(input.target_type@)) && e.target_type@ == trim_seq(input.target_type@)
                &&& e.id == id && e.organization_id == input.organization_id && e.space_id == input.space_id
                &&& e.actor_user_id == input.actor_user_id && e.target_id == input.target_id
                &&& e.metadata == input.metadata && e.created_at@ == created_at@
            },
            Err(e) => {
                ||| !valid_label(trim_seq(input.action@)) && e == AuditError::InvalidInput("audit action is required")
                ||| valid_label(trim_seq(input.action@)) && !valid_label(trim_seq(input.target_type@))
                    && e == AuditError::InvalidInput("audit target_type is required")
            },
        },
{
    let action = normalize_label(input.action, "audit action is required")?;
    let target_type = normalize_label(input.target_type, "audit target_type is required")?;
    Ok(AuditEvent {
        id,
        organization_id: input.organization_id,
        space_id: input.space_id,
        actor_user_id: input.actor_user_id,
        action,
        target_type,
        target_id: input.target_id,
        metadata: input.metadata,
        created_at,
    })
}

} // verus!
