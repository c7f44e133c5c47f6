//! Calendar accounts of users and the events synced for meetings.
use vstd::prelude::*;

use crate::crypto::{hash_token_hex, token_hash};
use crate::domain::calendar::{join_url, join_url_of};
use crate::domain::ids::{uuid_simple, uuid_simple_string};
use crate::text::{
    chars_of, collapse_ws, collapsed, last_chars, last_chars_of, push_str, string_of, trim_seq, trimmed,
    utf8_len, utf8_len_at_most, utf8_len_between,
};

verus! {

#[derive(Clone, Debug, PartialEq, Eq)]
pub struct ConnectedCalendarAccount {
    pub id: u128,
    pub user_id: u128,
    pub provider: String,
    pub external_account_id: String,
    pub calendar_id: String,
    pub access_token_ciphertext: String,
    pub refresh_token_ciphertext: Option<String>,
    pub token_last_four: String,
    pub sync_enabled: bool,
    pub created_at: String,
    pub updated_at: String,
}

#[derive(Clone, Debug, PartialEq, Eq)]
pub struct CalendarEventSync {
    pub id: u128,
    pub meeting_id: u128,
    pub account_id: u128,
    pub provider: String,
    pub provider_event_id: String,
    pub provider_event_url: Option<String>,
    pub calendar_id: String,
    pub status: String,
    pub last_synced_at: String,
    pub failure_reason: Option<String>,
    pub created_at: String,
    pub updated_at: String,
}

#[derive(Clone, Debug, PartialEq, Eq)]
pub struct CalendarEventSyncResult {
    pub event: CalendarEventSync,
    pub operation: String,
}

#[derive(Clone, Debug, PartialEq, Eq)]
pub struct ConnectCalendarAccount {
    pub external_account_id: String,
    pub calendar_id: String,
    pub access_token: String,
    pub refresh_token: Option<String>,
}

#[derive(Clone, Debug, PartialEq, Eq)]
pub struct ProviderEventUpsert {
    pub provider_event_id: String,
    pub provider_event_url: Option<String>,
}

#[derive(Clone, Copy, Debug, PartialEq, Eq)]
pub enum CalendarSyncError {
    InvalidInput(&'static str),
    AccountNotConnected(&'static str),
    StoreUnavailable,
    ProviderUnavailable,
}

impl CalendarSyncError {
    pub fn status_code(&self) -> (r: u16)
        ensures
            r == (match self {
                CalendarSyncError::InvalidInput(_) => 400u16,
                CalendarSyncError::AccountNotConnected(_) => 400,
                CalendarSyncError::StoreUnavailable => 500,
                CalendarSyncError::ProviderUnavailable => 500,
            }),
    {
        match self {
            CalendarSyncError::InvalidInput(_) => 400,
            CalendarSyncError::AccountNotConnected(_) => 400,
            CalendarSyncError::StoreUnavailable => 500,
            CalendarSyncError::ProviderUnavailable => 500,
        }
    }

    pub fn code(&self) -> (r: &'static str)
        ensures
            r@ == (match self {
                CalendarSyncError::InvalidInput(_) => "invalid_request"@,
                CalendarSyncError::AccountNotConnected(_) => "calendar_account_not_connected"@,
                CalendarSyncError::StoreUnavailable => "calendar_store_unavailable"@,
                CalendarSyncError::ProviderUnavailable => "calendar_provider_unavailable"@,
            }),
    {
        match self {
            CalendarSyncError::InvalidInput(_) => "invalid_request",
            CalendarSyncError::AccountNotConnected(_) => "calendar_account_not_connected",
            CalendarSyncError::StoreUnavailable => "calendar_store_unavailable",
            CalendarSyncError::ProviderUnavailable => "calendar_provider_unavailable",
        }
    }

    pub fn message(&self) -> (r: &'static str)
        ensures
            r@ == (match self {
                CalendarSyncError::InvalidInput(m) => m@,
                CalendarSyncError::AccountNotConnected(m) => m@,
                CalendarSyncError::StoreUnavailable => "calendar store is unavailable"@,
                CalendarSyncError::ProviderUnavailable => "calendar provider is unavailable"@,
            }),
    {
        match self {
            CalendarSyncError::InvalidInput(m) => m,
            CalendarSyncError::AccountNotConnected(m) => m,
            CalendarSyncError::StoreUnavailable => "calendar store is unavailable",
            CalendarSyncError::ProviderUnavailable => "calendar provider is unavailable",
        }
    }
}

/// A required text: white space runs collapsed, 1 to `max_len` bytes.
pub open spec fn required_ok(value: Seq<char>, max_len: nat) -> bool {
    1 <= utf8_len(collapse_ws(value)) <= max_len
}

pub fn normalize_required(value: String, message: &'static str, max_len: usize) -> (r: Result<String, CalendarSyncError>)
    ensures
        match r {
            Ok(s) => required_ok(value@, max_len as nat) && s@ == collapse_ws(value@),
            Err(e) => !required_ok(value@, max_len as nat) && e == CalendarSyncError::InvalidInput(message),
        },
{
    let v = collapsed(value.as_str());
    if max_len >= 1 && utf8_len_between(&v, 1, max_len) {
        Ok(string_of(&v))
    } else {
        Err(CalendarSyncError::InvalidInput(message))
    }
}

/// The calendar of an account: `primary` when none is named, else a
/// required text of at most 256 bytes.
pub open spec fn calendar_id_outcome(value: Seq<char>, message: &'static str) -> Result<Seq<char>, CalendarSyncError> {
    if trim_seq(value).len() == 0 {
        Ok("primary"@)
    } else if required_ok(trim_seq(value), 256) {
        Ok(collapse_ws(trim_seq(value)))
    } else {
        Err(CalendarSyncError::InvalidInput(message))
    }
}

pub fn normalize_calendar_id(value: String, message: &'static str) -> (r: Result<String, CalendarSyncError>)
    ensures
        match calendar_id_outcome(value@, message) {
            Ok(s) => r matches Ok(v) && v@ == s,
            Err(e) => r == Err::<String, CalendarSyncError>(e),
        },
{
    let v = trimmed(value.as_str());
    if v.len() == 0 {
        Ok(string_of(&chars_of("primary")))
    } else {
        normalize_required(string_of(&v), message, 256)
    }
}

/// An access token is at least 8 bytes once trimmed.
pub open spec fn token_long_enough(token: Seq<char>) -> bool {
    utf8_len(trim_seq(token)) >= 8
}

/// The last four characters of the trimmed token, for display.
pub fn token_last_four(token: &str) -> (r: Result<String, CalendarSyncError>)
    ensures
        match r {
            Ok(s) => token_long_enough(token@) && s@ == last_chars(trim_seq(token@), 4),
            Err(e) => !token_long_enough(token@) && e == CalendarSyncError::InvalidInput(
                "google access_token must be at least 8 characters",
            ),
        },
{
    let t = trimmed(token);
    if utf8_len_at_most(&t, 7) {
        return Err(CalendarSyncError::InvalidInput("google access_token must be at least 8 characters"));
    }
    Ok(string_of(&last_chars_of(&t, 4)))
}

/// How a token is stored: `sha256:` and the hex SHA-256 of the trimmed
/// token.
pub open spec fn stored_token(token: Seq<char>) -> Seq<char> {
    "sha256:"@ + token_hash(trim_seq(token))
}

pub fn token_storage_value(token: String) -> (r: Result<String, CalendarSyncError>)
    ensures
        match r {
            Ok(s) => token_long_enough(token@) && s@ == stored_token(token@),
            Err(e) => !token_long_enough(token@) && e == CalendarSyncError::InvalidInput(
                "google access_token must be at least 8 characters",
            ),
        },
{
    let t = string_of(&trimmed(token.as_str()));
    let c = chars_of(t.as_str());
    if utf8_len_at_most(&c, 7) {
        return Err(CalendarSyncError::InvalidInput("google access_token must be at least 8 characters"));
    }
    let hex = hash_token_hex(t.as_str());
    let mut out = chars_of("sha256:");
    push_str(&mut out, hex.as_str());
    Ok(string_of(&out))
}

/// The account to store when a user connects a calendar (the connect
/// functions before the store call). Checked in order: the external account,
/// the calendar, the access token, the refresh token.
pub fn new_calendar_account(
    id: u128,
    user_id: u128,
    now: String,
    input: ConnectCalendarAccount,
    provider: &str,
    external_account_message: &'static str,
    calendar_message: &'static str,
) -> (r: Result<ConnectedCalendarAccount, CalendarSyncError>)
    ensures
        match r {
            Ok(a) => {
                &&& required_ok(input.external_account_id@, 256) && a.external_account_id@ == collapse_ws(input.external_account_id@)
                &&& calendar_id_outcome(input.calendar_id@, calendar_message) == Ok::<Seq<char>, CalendarSyncError>(a.calendar_id@)
                &&& token_long_enough(input.access_token@)
                &&& a.token_last_four@ == last_chars(trim_seq(input.access_token@), 4)
                &&& a.access_token_ciphertext@ == stored_token(input.access_token@)
                &&& match input.refresh_token {
                    Some(t) => token_long_enough(t@) && (a.refresh_token_ciphertext matches Some(c) && c@ == stored_token(t@)),
                    None => a.refresh_token_ciphertext is None,
                }
                &&& a.id == id && a.user_id == user_id && a.provider@ == provider@ && a.sync_enabled
                &&& a.created_at@ == now@ && a.updated_at@ == now@
            },
            Err(e) => {
                ||| !required_ok(input.external_account_id@, 256) && e == CalendarSyncError::InvalidInput(external_account_message)
                ||| required_ok(input.external_account_id@, 256) && calendar_id_outcome(input.calendar_id@, calendar_message)
                    == Err::<Seq<char>, CalendarSyncError>(e)
                ||| required_ok(input.external_account_id@, 256) && calendar_id_outcome(input.calendar_id@, calendar_message) is Ok
                    && !token_long_enough(input.access_token@)
                    && e == CalendarSyncError::InvalidInput("google access_token must be at least 8 characters")
                ||| required_ok(input.external_account_id@, 256) && calendar_id_outcome(input.calendar_id@, calendar_message) is Ok
                    && token_long_enough(input.access_token@) && (input.refresh_token matches Some(t) && !token_long_enough(t@))
                    && e == CalendarSyncError::InvalidInput("google access_token must be at least 8 characters")
            },
        },
{
    let external_account_id = normalize_required(input.external_account_id, external_account_message, 256)?;
    let calendar_id = normalize_calendar_id(input.calendar_id, calendar_message)?;
    let token_last_four = token_last_four(input.access_token.as_str())?;
    let access_token_ciphertext = token_storage_value(input.access_token)?;
    let refresh_token_ciphertext = match input.refresh_token {
        Some(t) => Some(token_storage_value(t)?),
        None => None,
    };
    Ok(ConnectedCalendarAccount {
        id,
        user_id,
        provider: string_of(&chars_of(provider)),
        external_account_id,
        calendar_id,
        access_token_ciphertext,
        refresh_token_ciphertext,
        token_last_four,
        sync_enabled: true,
        created_at: now.clone(),
        updated_at: now,
    })
}

/// The account a sync uses: the connected one, if syncing is on for it.
pub fn require_sync_account(account: Option<ConnectedCalendarAccount>, not_connected_message: &'static str) -> (r: Result<ConnectedCalendarAccount, CalendarSyncError>)
    ensures
        match account {
            Some(a) => if a.sync_enabled {
                r == Ok::<ConnectedCalendarAccount, CalendarSyncError>(a)
            } else {
                r == Err::<ConnectedCalendarAccount, CalendarSyncError>(CalendarSyncError::AccountNotConnected(not_connected_message))
            },
            None => r == Err::<ConnectedCalendarAccount, CalendarSyncError>(CalendarSyncError::AccountNotConnected(not_connected_message)),
        },
{
    match account {
        Some(a) => if a.sync_enabled {
            Ok(a)
        } else {
            Err(CalendarSyncError::AccountNotConnected(not_connected_message))
        },
        None => Err(CalendarSyncError::AccountNotConnected(not_connected_message)),
    }
}

/// The provider's event id for a meeting: the one already synced, else the
/// provider's prefix, `-` and a new id.
pub open spec fn provider_event_id(prefix: Seq<char>, existing: Option<CalendarEventSync>, new_id: u128) -> Seq<char> {
    match existing {
        Some(e) => e.provider_event_id@,
        None => prefix + "-"@ + uuid_simple(new_id),
    }
}

fn event_id_for(prefix: &str, existing: &Option<CalendarEventSync>, new_id: u128) -> (r: Vec<char>)
    ensures
        r@ == provider_event_id(prefix@, *existing, new_id),
{
    match existing {
        Some(e) => chars_of(e.provider_event_id.as_str()),
        None => {
            let mut v = chars_of(prefix);
            push_str(&mut v, "-");
            let s = uuid_simple_string(new_id);
            push_str(&mut v, s.as_str());
            v
        },
    }
}

/// The Google adapter that keeps events locally.
#[derive(Clone, Copy, Debug, Default)]
pub struct LocalGoogleCalendarAdapter;

/// The Microsoft adapter that keeps events locally.
#[derive(Clone, Copy, Debug, Default)]
pub struct LocalMicrosoftCalendarAdapter;

impl LocalGoogleCalendarAdapter {
    /// The event upserted for a meeting (`upsert_event`); `new_id` names a
    /// new event.
    pub fn upsert_event(&self, existing: &Option<CalendarEventSync>, new_id: u128) -> (r: ProviderEventUpsert)
        ensures
            r.provider_event_id@ == provider_event_id("google"@, *existing, new_id),
            r.provider_event_url matches Some(u) && u@ == "https://calendar.google.com/calendar/event?eid="@
                + provider_event_id("google"@, *existing, new_id),
    {
        let id = event_id_for("google", existing, new_id);
        let mut url = chars_of("https://calendar.google.com/calendar/event?eid=");
        crate::text::push_chars(&mut url, &id);
        ProviderEventUpsert { provider_event_id: string_of(&id), provider_event_url: Some(string_of(&url)) }
    }
}

impl LocalMicrosoftCalendarAdapter {
    /// The event upserted for a meeting (`upsert_event`); `new_id` names a
    /// new event.
    pub fn upsert_event(&self, existing: &Option<CalendarEventSync>, new_id: u128) -> (r: ProviderEventUpsert)
        ensures
            r.provider_event_id@ == provider_event_id("microsoft"@, *existing, new_id),
            r.provider_event_url matches Some(u) && u@ == "https://outlook.office.com/calendar/item/"@
                + provider_event_id("microsoft"@, *existing, new_id),
    {
        let id = event_id_for("microsoft", existing, new_id);
        let mut url = chars_of("https://outlook.office.com/calendar/item/");
        crate::text::push_chars(&mut url, &id);
        ProviderEventUpsert { provider_event_id: string_of(&id), provider_event_url: Some(string_of(&url)) }
    }
}

/// The sync record to store after the provider upserted the event, and
/// whether it was `created` or `updated`: an existing record keeps its id
/// and creation time.
pub fn synced_event(
    new_id: u128,
    now: String,
    meeting_id: u128,
    account: &ConnectedCalendarAccount,
    provider: &str,
    provider_event: ProviderEventUpsert,
    existing: Option<CalendarEventSync>,
) -> (r: (CalendarEventSync, String))
    ensures
        r.1@ == (if existing is Some { "updated"@ } else { "created"@ }),
        r.0.id == (match existing {
            Some(e) => e.id,
            None => new_id,
        }),
        r.0.created_at@ == (match existing {
            Some(e) => e.created_at@,
            None => now@,
        }),
        r.0.meeting_id == meeting_id && r.0.account_id == account.id && r.0.provider@ == provider@,
        r.0.provider_event_id == provider_event.provider_event_id,
        r.0.provider_event_url == provider_event.provider_event_url,
        r.0.calendar_id@ == account.calendar_id@,
        r.0.status@ == "synced"@,
        r.0.last_synced_at@ == now@ && r.0.updated_at@ == now@,
        r.0.failure_reason is None,
{
    let (operation, id, created_at) = match existing {
        Some(e) => ("updated", e.id, e.created_at),
        None => ("created", new_id, now.clone()),
    };
    let event = CalendarEventSync {
        id,
        meeting_id,
        account_id: account.id,
        provider: string_of(&chars_of(provider)),
        provider_event_id: provider_event.provider_event_id,
        provider_event_url: provider_event.provider_event_url,
        calendar_id: account.calendar_id.clone(),
        status: string_of(&chars_of("synced")),
        last_synced_at: now.clone(),
        failure_reason: None,
        created_at,
        updated_at: now,
    };
    (event, string_of(&chars_of(operation)))
}

/// The address at which a meeting is joined (`meeting_join_url`).
pub fn meeting_join_url(public_url: &str, join_slug: &str) -> (r: String)
    ensures
        r@ == join_url_of(public_url@, join_slug@),
{
    string_of(&join_url(public_url, join_slug))
}

} // verus!
