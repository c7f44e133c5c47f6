//! Billing: events from the payment provider and the state they leave.
use vstd::prelude::*;

use crate::domain::organization::OrganizationError;
use crate::text::{chars_of, collapse_ws, collapsed, eq_str, lower_seq, string_of, trim_seq, trimmed, trimmed_lower, utf8_len, utf8_len_between};
use crate::time::{chrono_representable, format_rfc3339, parse_rfc3339, rfc3339_instant, rfc3339_text};

verus! {

#[derive(Clone, Debug, PartialEq, Eq)]
pub struct BillingState {
    pub id: u128,
    pub organization_id: u128,
    pub provider: String,
    pub event_type: String,
    pub external_customer_id: String,
    pub external_subscription_id: String,
    pub plan: String,
    pub status: String,
    pub current_period_end: Option<String>,
    pub updated_at: String,
}

#[derive(Clone, Debug, PartialEq, Eq)]
pub struct BillingProviderEvent {
    pub organization_id: u128,
    pub provider: String,
    pub event_type: String,
    pub external_customer_id: String,
    pub external_subscription_id: String,
    pub plan: String,
    pub status: String,
    pub current_period_end: Option<String>,
}

#[derive(Clone, Copy, Debug, PartialEq, Eq)]
pub enum BillingError {
    InvalidInput(&'static str),
    OrganizationNotFound,
    StoreUnavailable,
}

impl BillingError {
    pub fn status_code(&self) -> (r: u16)
        ensures
            r == (match self {
                BillingError::InvalidInput(_) => 400u16,
                BillingError::OrganizationNotFound => 404,
                BillingError::StoreUnavailable => 500,
            }),
    {
        match self {
            BillingError::InvalidInput(_) => 400,
            BillingError::OrganizationNotFound => 404,
            BillingError::StoreUnavailable => 500,
        }
    }

    pub fn code(&self) -> (r: &'static str)
        ensures
            r@ == (match self {
                BillingError::InvalidInput(_) => "invalid_request"@,
                BillingError::OrganizationNotFound => "organization_not_found"@,
                BillingError::StoreUnavailable => "billing_store_unavailable"@,
            }),
    {
        match self {
            BillingError::InvalidInput(_) => "invalid_request",
            BillingError::OrganizationNotFound => "organization_not_found",
            BillingError::StoreUnavailable => "billing_store_unavailable",
        }
    }

    pub fn message(&self) -> (r: &'static str)
        ensures
            r@ == (match self {
                BillingError::InvalidInput(m) => m@,
                BillingError::OrganizationNotFound => "organization was not found"@,
                BillingError::StoreUnavailable => "billing store is unavailable"@,
            }),
    {
        match self {
            BillingError::InvalidInput(m) => m,
            BillingError::OrganizationNotFound => "organization was not found",
            BillingError::StoreUnavailable => "billing store is unavailable",
        }
    }
}

/// A value as compared: trimmed and ASCII lower-cased.
pub open spec fn key_of(s: Seq<char>) -> Seq<char> {
    lower_seq(trim_seq(s))
}

pub open spec fn known_event_type(k: Seq<char>) -> bool {
    ||| k == "subscription.created"@
    ||| k == "subscription.updated"@
    ||| k == "subscription.cancelled"@
    ||| k == "invoice.payment_failed"@
    ||| k == "invoice.paid"@
    ||| k == "plan.changed"@
}

pub open spec fn known_plan(k: Seq<char>) -> bool {
    k == "free"@ || k == "team"@ || k == "business"@ || k == "enterprise"@
}

pub open spec fn known_status(k: Seq<char>) -> bool {
    k == "active"@ || k == "trialing"@ || k == "past_due"@ || k == "cancelled"@ || k == "unpaid"@
}

pub fn normalize_provider(provider: String) -> (r: Result<String, BillingError>)
    ensures
        match r {
            Ok(s) => key_of(provider@) == "stripe"@ && s@ == "stripe"@,
            Err(e) => key_of(provider@) != "stripe"@ && e == BillingError::InvalidInput("billing provider must be stripe"),
        },
{
    let k = trimmed_lower(provider.as_str());
    if eq_str(&k, "stripe") {
        Ok(string_of(&k))
    } else {
        Err(BillingError::InvalidInput("billing provider must be stripe"))
    }
}

pub fn normalize_event_type(event_type: String) -> (r: Result<String, BillingError>)
    ensures
        match r {
            Ok(s) => known_event_type(key_of(event_type@)) && s@ == key_of(event_type@),
            Err(e) => !known_event_type(key_of(event_type@)) && e == BillingError::InvalidInput(
                "billing event_type is not supported",
            ),
        },
{
    let k = trimmed_lower(event_type.as_str());
    if eq_str(&k, "subscription.created") || eq_str(&k, "subscription.updated") || eq_str(&k, "subscription.cancelled")
        || eq_str(&k, "invoice.payment_failed") || eq_str(&k, "invoice.paid") || eq_str(&k, "plan.changed") {
        Ok(string_of(&k))
    } else {
        Err(BillingError::InvalidInput("billing event_type is not supported"))
    }
}

pub fn normalize_plan(plan: String) -> (r: Result<String, BillingError>)
    ensures
        match r {
            Ok(s) => known_plan(key_of(plan@)) && s@ == key_of(plan@),
            Err(e) => !known_plan(key_of(plan@)) && e == BillingError::InvalidInput(
                "billing plan must be free, team, business, or enterprise",
            ),
        },
{
    let k = trimmed_lower(plan.as_str());
    if eq_str(&k, "free") || eq_str(&k, "team") || eq_str(&k, "business") || eq_str(&k, "enterprise") {
        Ok(string_of(&k))
    } else {
        Err(BillingError::InvalidInput("billing plan must be free, team, business, or enterprise"))
    }
}

pub fn normalize_status(status: String) -> (r: Result<String, BillingError>)
    ensures
        match r {
            Ok(s) => known_status(key_of(status@)) && s@ == key_of(status@),
            Err(e) => !known_status(key_of(status@)) && e == BillingError::InvalidInput("billing status is not supported"),
        },
{
    let k = trimmed_lower(status.as_str());
    if eq_str(&k, "active") || eq_str(&k, "trialing") || eq_str(&k, "past_due") || eq_str(&k, "cancelled") || eq_str(
        &k,
        "unpaid",
    ) {
        Ok(string_of(&k))
    } else {
        Err(BillingError::InvalidInput("billing status is not supported"))
    }
}

/// A required text: white space runs collapsed, 1 to `max_len` bytes.
pub open spec fn required_ok(value: Seq<char>, max_len: nat) -> bool {
    1 <= utf8_len(collapse_ws(value)) <= max_len
}

pub fn normalize_required(value: String, message: &'static str, max_len: usize) -> (r: Result<String, BillingError>)
    ensures
        match r {
            Ok(s) => required_ok(value@, max_len as nat) && s@ == collapse_ws(value@),
            Err(e) => !required_ok(value@, max_len as nat) && e == BillingError::InvalidInput(message),
        },
{
    let v = collapsed(value.as_str());
    if max_len >= 1 && utf8_len_between(&v, 1, max_len) {
        Ok(string_of(&v))
    } else {
        Err(BillingError::InvalidInput(message))
    }
}

/// A period end: the trimmed RFC 3339 text, written in UTC with whole
/// seconds.
pub fn normalize_time(value: String) -> (r: Result<String, BillingError>)
    ensures
        match rfc3339_instant(trim_seq(value@)) {
            Some(t) => r matches Ok(s) && s@ == rfc3339_text(t.0, t.1, false),
            None => r == Err::<String, BillingError>(BillingError::InvalidInput("billing current_period_end must be RFC3339")),
        },
{
    let t = string_of(&trimmed(value.as_str()));
    match parse_rfc3339(t.as_str()) {
        Some(i) => match format_rfc3339(i.0, i.1, false) {
            Some(s) => Ok(s),
            None => Err(BillingError::InvalidInput("billing current_period_end must be RFC3339")),
        },
        None => Err(BillingError::InvalidInput("billing current_period_end must be RFC3339")),
    }
}

/// The fields of a provider event once checked.
#[derive(Clone, Debug, PartialEq, Eq)]
pub struct CheckedBillingEvent {
    pub organization_id: u128,
    pub provider: String,
    pub event_type: String,
    pub external_customer_id: String,
    pub external_subscription_id: String,
    pub plan: String,
    pub status: String,
    pub current_period_end: Option<String>,
}

pub open spec fn period_ok(p: Option<String>) -> bool {
    p matches Some(t) ==> rfc3339_instant(trim_seq(t@)) is Some
}

/// The first check a provider event fails, in the order provider, event
/// type, plan, status, period end, customer, subscription.
pub open spec fn billing_event_error(e: BillingProviderEvent) -> Option<BillingError> {
    if key_of(e.provider@) != "stripe"@ {
        Some(BillingError::InvalidInput("billing provider must be stripe"))
    } else if !known_event_type(key_of(e.event_type@)) {
        Some(BillingError::InvalidInput("billing event_type is not supported"))
    } else if !known_plan(key_of(e.plan@)) {
        Some(BillingError::InvalidInput("billing plan must be free, team, business, or enterprise"))
    } else if !known_status(key_of(e.status@)) {
        Some(BillingError::InvalidInput("billing status is not supported"))
    } else if !period_ok(e.current_period_end) {
        Some(BillingError::InvalidInput("billing current_period_end must be RFC3339"))
    } else if !required_ok(e.external_customer_id@, 256) {
        Some(BillingError::InvalidInput("billing external_customer_id is required"))
    } else if !required_ok(e.external_subscription_id@, 256) {
        Some(BillingError::InvalidInput("billing external_subscription_id is required"))
    } else {
        None
    }
}

/// The checked event (`apply_provider_event` before the store calls).
pub fn check_provider_event(event: BillingProviderEvent) -> (r: Result<CheckedBillingEvent, BillingError>)
    ensures
        match billing_event_error(event) {
            Some(e) => r == Err::<CheckedBillingEvent, BillingError>(e),
            None => r matches Ok(c) && {
                &&& c.organization_id == event.organization_id
                &&& c.provider@ == "stripe"@
                &&& c.event_type@ == key_of(event.event_type@)
                &&& c.plan@ == key_of(event.plan@)
                &&& c.status@ == key_of(event.status@)
                &&& c.external_customer_id@ == collapse_ws(event.external_customer_id@)
                &&& c.external_subscription_id@ == collapse_ws(event.external_subscription_id@)
                &&& match event.current_period_end {
                    Some(t) => c.current_period_end matches Some(s) && rfc3339_instant(trim_seq(t@)) matches Some(i)
                        && s@ == rfc3339_text(i.0, i.1, false),
                    None => c.current_period_end is None,
                }
            },
        },
{
    let provider = normalize_provider(event.provider)?;
    let event_type = normalize_event_type(event.event_type)?;
    let plan = normalize_plan(event.plan)?;
    let status = normalize_status(event.status)?;
    let current_period_end = match event.current_period_end {
        Some(t) => Some(normalize_time(t)?),
        None => None,
    };
    let external_customer_id = normalize_required(event.external_customer_id, "billing external_customer_id is required", 256)?;
    let external_subscription_id = normalize_required(
        event.external_subscription_id,
        "billing external_subscription_id is required",
        256,
    )?;
    Ok(CheckedBillingEvent {
        organization_id: event.organization_id,
        provider,
        event_type,
        external_customer_id,
        external_subscription_id,
        plan,
        status,
        current_period_end,
    })
}

/// The billing error for a failed plan update of the organization.
pub fn plan_update_error(error: OrganizationError) -> (r: BillingError)
    ensures
        r == (if error == OrganizationError::NotFound {
            BillingError::OrganizationNotFound
        } else {
            BillingError::StoreUnavailable
        }),
{
    match error {
        OrganizationError::NotFound => BillingError::OrganizationNotFound,
        _ => BillingError::StoreUnavailable,
    }
}

/// The state stored after a checked event.
pub fn billing_state(id: u128, now: String, event: CheckedBillingEvent) -> (r: BillingState)
    ensures
        r == (BillingState {
            id,
            organization_id: event.organization_id,
            provider: event.provider,
            event_type: event.event_type,
            external_customer_id: event.external_customer_id,
            external_subscription_id: event.external_subscription_id,
            plan: event.plan,
            status: event.status,
            current_period_end: event.current_period_end,
            updated_at: now,
        }),
{
    BillingState {
        id,
        organization_id: event.organization_id,
        provider: event.provider,
        event_type: event.event_type,
        external_customer_id: event.external_customer_id,
        external_subscription_id: event.external_subscription_id,
        plan: event.plan,
        status: event.status,
        current_period_end: event.current_period_end,
        updated_at: now,
    }
}

/// The billing events applied are exactly these six, named in any case and
/// with surrounding space: `subscription.created`, `subscription.updated`,
/// `subscription.cancelled`, `invoice.payment_failed`, `invoice.paid` and
/// `plan.changed`; `normalize_event_type` accepts an event type exactly when
/// its trimmed lower-case form is one of them, and gives that form.
pub proof fn law_supported_event_types(event_type: Seq<char>)
    ensures
        known_event_type(key_of(event_type)) <==> {
            let k = lower_seq(trim_seq(event_type));
            k == "subscription.created"@ || k == "subscription.updated"@ || k == "subscription.cancelled"@
                || k == "invoice.payment_failed"@ || k == "invoice.paid"@ || k == "plan.changed"@
        },
{
}

/// The plans are exactly `free`, `team`, `business` and `enterprise`, in
/// any case and with surrounding space.
pub proof fn law_supported_plans(plan: Seq<char>)
    ensures
        known_plan(key_of(plan)) <==> {
            let k = lower_seq(trim_seq(plan));
            k == "free"@ || k == "team"@ || k == "business"@ || k == "enterprise"@
        },
{
}

/// The subscription statuses are exactly `active`, `trialing`, `past_due`,
/// `cancelled` and `unpaid`, in any case and with surrounding space.
pub proof fn law_supported_statuses(status: Seq<char>)
    ensures
        known_status(key_of(status)) <==> {
            let k = lower_seq(trim_seq(status));
            k == "active"@ || k == "trialing"@ || k == "past_due"@ || k == "cancelled"@ || k == "unpaid"@
        },
{
}

} // verus!
