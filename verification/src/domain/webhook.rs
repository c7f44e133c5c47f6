//! Incoming webhooks of channels: their bot users and secret tokens.
use vstd::prelude::*;
use vstd::std_specs::convert::FromSpecImpl;

use crate::crypto::{hash_token_hex, hex_encode, hex_of, random_bytes_32, token_hash};
use crate::domain::auth::{AuthError, StoredUser};
use crate::domain::ids::{uuid_hyphenated, uuid_simple, uuid_simple_string, uuid_to_string};
use crate::text::{chars_of, collapse_ws, collapsed, eq_str, last_chars, last_chars_of, push_str, string_of, utf8_len, utf8_len_between};

verus! {

#[derive(Clone, Debug, PartialEq, Eq)]
pub struct IncomingWebhook {
    pub id: u128,
    pub organization_id: u128,
    pub space_id: u128,
    pub channel_id: u128,
    pub bot_user_id: u128,
    pub created_by_user_id: u128,
    pub name: String,
    pub token_hash: String,
    pub token_last_four: String,
    pub status: String,
    pub created_at: String,
}

#[derive(Clone, Debug, PartialEq, Eq)]
pub struct IncomingWebhookCreated {
    pub webhook: IncomingWebhook,
    pub token: String,
}

#[derive(Clone, Copy, Debug, PartialEq, Eq)]
pub enum WebhookError {
    InvalidInput(&'static str),
    NotFound,
    StoreUnavailable,
}

impl WebhookError {
    pub fn status_code(&self) -> (r: u16)
        ensures
            r == (match self {
                WebhookError::InvalidInput(_) => 400u16,
                WebhookError::NotFound => 404,
                WebhookError::StoreUnavailable => 500,
            }),
    {
        match self {
            WebhookError::InvalidInput(_) => 400,
            WebhookError::NotFound => 404,
            WebhookError::StoreUnavailable => 500,
        }
    }

    pub fn code(&self) -> (r: &'static str)
        ensures
            r@ == (match self {
                WebhookError::InvalidInput(_) => "invalid_request"@,
                WebhookError::NotFound => "webhook_not_found"@,
                WebhookError::StoreUnavailable => "store_unavailable"@,
            }),
    {
        match self {
            WebhookError::InvalidInput(_) => "invalid_request",
            WebhookError::NotFound => "webhook_not_found",
            WebhookError::StoreUnavailable => "store_unavailable",
        }
    }

    pub fn message(&self) -> (r: &'static str)
        ensures
            r@ == (match self {
                WebhookError::InvalidInput(m) => m@,
                WebhookError::NotFound => "webhook was not found"@,
                WebhookError::StoreUnavailable => "webhook store is unavailable"@,
            }),
    {
        match self {
            WebhookError::InvalidInput(m) => m,
            WebhookError::NotFound => "webhook was not found",
            WebhookError::StoreUnavailable => "webhook store is unavailable",
        }
    }
}

impl From<AuthError> for WebhookError {
    fn from(error: AuthError) -> (r: WebhookError) {
        match error {
            AuthError::InvalidInput(m) => WebhookError::InvalidInput(m),
            _ => WebhookError::StoreUnavailable,
        }
    }
}

impl FromSpecImpl<AuthError> for WebhookError {
    open spec fn obeys_from_spec() -> bool {
        true
    }

    open spec fn from_spec(error: AuthError) -> WebhookError {
        match error {
            AuthError::InvalidInput(m) => WebhookError::InvalidInput(m),
            _ => WebhookError::StoreUnavailable,
        }
    }
}

/// A webhook name: white space runs collapsed, 1 to 80 bytes.
pub open spec fn valid_webhook_name(name: Seq<char>) -> bool {
    1 <= utf8_len(collapse_ws(name)) <= 80
}

pub fn normalize_name(name: String) -> (r: Result<String, WebhookError>)
    ensures
        match r {
            Ok(s) => valid_webhook_name(name@) && s@ == collapse_ws(name@),
            Err(e) => !valid_webhook_name(name@) && e == WebhookError::InvalidInput(
                "webhook name must be between 1 and 80 characters",
            ),
        },
{
    let n = collapsed(name.as_str());
    if utf8_len_between(&n, 1, 80) {
        Ok(string_of(&n))
    } else {
        Err(WebhookError::InvalidInput("webhook name must be between 1 and 80 characters"))
    }
}

/// A new webhook token: `ocw_` and 32 random bytes in hex.
pub fn generate_token() -> (r: String)
    ensures
        exists|b: Seq<u8>| b.len() == 32 && r@ == "ocw_"@ + hex_of(b),
{
    let bytes = random_bytes_32();
    let hex = hex_encode(bytes.as_slice());
    let mut v = chars_of("ocw_");
    push_str(&mut v, hex.as_str());
    string_of(&v)
}

/// What a webhook token is stored as: the hex SHA-256 of its bytes.
pub fn hash_token(token: &str) -> (r: String)
    ensures
        r@ == token_hash(token@),
{
    hash_token_hex(token)
}

/// The ids a new webhook uses.
#[derive(Clone, Copy, Debug, PartialEq, Eq)]
pub struct WebhookIds {
    pub webhook_id: u128,
    pub bot_user_id: u128,
}

/// The bot user that posts a webhook's messages.
pub fn webhook_bot_user(ids: WebhookIds, name: &String) -> (r: StoredUser)
    ensures
        r.id == ids.bot_user_id,
        r.email@ == "webhook-"@ + uuid_simple(ids.webhook_id) + "@webhooks.opencord.local"@,
        r.display_name@ == name@,
        r.password_hash@ == "incoming-webhook:"@ + uuid_hyphenated(ids.webhook_id),
{
    let mut email = chars_of("webhook-");
    push_str(&mut email, uuid_simple_string(ids.webhook_id).as_str());
    push_str(&mut email, "@webhooks.opencord.local");
    let mut marker = chars_of("incoming-webhook:");
    push_str(&mut marker, uuid_to_string(ids.webhook_id).as_str());
    StoredUser { id: ids.bot_user_id, email: string_of(&email), display_name: name.clone(), password_hash: string_of(&marker) }
}

/// The webhook to store for a new token (`create` after the bot user
/// exists).
pub fn new_webhook(
    ids: WebhookIds,
    organization_id: u128,
    space_id: u128,
    channel_id: u128,
    created_by_user_id: u128,
    name: String,
    token: String,
    created_at: String,
) -> (r: IncomingWebhookCreated)
    ensures
        r.token@ == token@,
        r.webhook.id == ids.webhook_id && r.webhook.bot_user_id == ids.bot_user_id,
        r.webhook.organization_id == organization_id && r.webhook.space_id == space_id,
        r.webhook.channel_id == channel_id && r.webhook.created_by_user_id == created_by_user_id,
        r.webhook.name@ == name@,
        r.webhook.token_hash@ == token_hash(token@) && r.webhook.token_last_four@ == last_chars(token@, 4),
        r.webhook.status@ == "active"@ && r.webhook.created_at@ == created_at@,
{
    let token_hash = hash_token(token.as_str());
    let token_last_four = string_of(&last_chars_of(&chars_of(token.as_str()), 4));
    IncomingWebhookCreated {
        webhook: IncomingWebhook {
            id: ids.webhook_id,
            organization_id,
            space_id,
            channel_id,
            bot_user_id: ids.bot_user_id,
            created_by_user_id,
            name,
            token_hash,
            token_last_four,
            status: string_of(&chars_of("active")),
            created_at,
        },
        token,
    }
}

/// The hash and last four characters stored when a token is rotated.
pub fn rotated_token_fields(token: &str) -> (r: (String, String))
    ensures
        r.0@ == token_hash(token@) && r.1@ == last_chars(token@, 4),
{
    (hash_token(token), string_of(&last_chars_of(&chars_of(token), 4)))
}

/// A rotated webhook that is found.
pub fn found_webhook(webhook: Option<IncomingWebhook>) -> (r: Result<IncomingWebhook, WebhookError>)
    ensures
        match webhook {
            Some(w) => r == Ok::<IncomingWebhook, WebhookError>(w),
            None => r == Err::<IncomingWebhook, WebhookError>(WebhookError::NotFound),
        },
{
    match webhook {
        Some(w) => Ok(w),
        None => Err(WebhookError::NotFound),
    }
}

/// Disabling fails when the store disabled nothing.
pub fn disabled_outcome(disabled: bool) -> (r: Result<(), WebhookError>)
    ensures
        r == (if disabled { Ok::<(), WebhookError>(()) } else { Err(WebhookError::NotFound) }),
{
    if disabled {
        Ok(())
    } else {
        Err(WebhookError::NotFound)
    }
}

/// The webhook a token posts as (`verify`): it must exist, be active and
/// have the token's hash; otherwise it is not found.
pub fn verify_webhook(webhook: Option<IncomingWebhook>, token: &str) -> (r: Result<IncomingWebhook, WebhookError>)
    ensures
        match webhook {
            None => r == Err::<IncomingWebhook, WebhookError>(WebhookError::NotFound),
            Some(w) => if w.status@ == "active"@ && w.token_hash@ == token_hash(token@) {
                r == Ok::<IncomingWebhook, WebhookError>(w)
            } else {
                r == Err::<IncomingWebhook, WebhookError>(WebhookError::NotFound)
            },
        },
{
    match webhook {
        None => Err(WebhookError::NotFound),
        Some(w) => {
            let h = hash_token(token);
            let same = eq_chars(&chars_of(w.token_hash.as_str()), &chars_of(h.as_str()));
            if eq_str(&chars_of(w.status.as_str()), "active") && same {
                Ok(w)
            } else {
                Err(WebhookError::NotFound)
            }
        },
    }
}

fn eq_chars(a: &Vec<char>, b: &Vec<char>) -> (r: bool)
    ensures
        r == (a@ == b@),
{
    if a.len() != b.len() {
        return false;
    }
    let mut i: usize = 0;
    while i < a.len()
        invariant
            i <= a.len(),
            a.len() == b.len(),
            forall|k: int| 0 <= k < i ==> a@[k] == b@[k],
        decreases a.len() - i,
    {
        if a[i] != b[i] {
            return false;
        }
        i += 1;
    }
    assert(a@ =~= b@);
    true
}

} // verus!
