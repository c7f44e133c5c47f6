//! Bot applications: a bot user and its first token.
use vstd::prelude::*;
use vstd::std_specs::convert::FromSpecImpl;

use crate::crypto::{hash_token_hex, hex_encode, hex_of, random_bytes_32, token_hash};
use crate::domain::auth::{AuthError, StoredUser};
use crate::domain::ids::{uuid_hyphenated, uuid_simple, uuid_simple_string, uuid_to_string};
use crate::text::{chars_of, last_chars, last_chars_of, push_str, string_of, trim_seq, trimmed, utf8_len, utf8_len_at_most};

verus! {

#[derive(Clone, Debug, PartialEq, Eq)]
pub struct BotApplication {
    pub id: u128,
    pub organization_id: u128,
    pub bot_user_id: u128,
    pub created_by_user_id: u128,
    pub name: String,
    pub description: Option<String>,
    pub status: String,
}

#[derive(Clone, Debug, PartialEq, Eq)]
pub struct StoredBotToken {
    pub id: u128,
    pub application_id: u128,
    pub token_hash: String,
    pub token_last_four: String,
    pub created_by_user_id: u128,
    pub active: bool,
}

#[derive(Clone, Debug, PartialEq, Eq)]
pub struct BotToken {
    pub id: u128,
    pub application_id: u128,
    pub token: String,
    pub token_last_four: String,
}

#[derive(Clone, Debug, PartialEq, Eq)]
pub struct BotApplicationCreated {
    pub application: BotApplication,
    pub token: BotToken,
}

/// A bot that presented a valid token: its application, organization and
/// bot user.
#[derive(Clone, Copy, Debug, PartialEq, Eq)]
pub struct AuthenticatedBot {
    pub application_id: u128,
    pub organization_id: u128,
    pub bot_user_id: u128,
}

#[derive(Debug)]
pub struct CreateBotApplicationInput {
    pub organization_id: u128,
    pub created_by_user_id: u128,
    pub name: String,
    pub description: Option<String>,
}

#[derive(Clone, Copy, Debug, PartialEq, Eq)]
pub enum BotError {
    InvalidInput(&'static str),
    StoreUnavailable,
}

impl BotError {
    pub fn status_code(&self) -> (r: u16)
        ensures
            r == (match self {
                BotError::InvalidInput(_) => 400u16,
                BotError::StoreUnavailable => 500,
            }),
    {
        match self {
            BotError::InvalidInput(_) => 400,
            BotError::StoreUnavailable => 500,
        }
    }

    pub fn code(&self) -> (r: &'static str)
        ensures
            r@ == (match self {
                BotError::InvalidInput(_) => "invalid_request"@,
                BotError::StoreUnavailable => "bot_store_unavailable"@,
            }),
    {
        match self {
            BotError::InvalidInput(_) => "invalid_request",
            BotError::StoreUnavailable => "bot_store_unavailable",
        }
    }

    pub fn message(&self) -> (r: &'static str)
        ensures
            r@ == (match self {
                BotError::InvalidInput(m) => m@,
                BotError::StoreUnavailable => "bot store is unavailable"@,
            }),
    {
        match self {
            BotError::InvalidInput(m) => m,
            BotError::StoreUnavailable => "bot store is unavailable",
        }
    }
}

impl From<AuthError> for BotError {
    fn from(error: AuthError) -> (r: BotError) {
        match error {
            AuthError::InvalidInput(m) => BotError::InvalidInput(m),
            _ => BotError::StoreUnavailable,
        }
    }
}

impl FromSpecImpl<AuthError> for BotError {
    open spec fn obeys_from_spec() -> bool {
        true
    }

    open spec fn from_spec(error: AuthError) -> BotError {
        match error {
            AuthError::InvalidInput(m) => BotError::InvalidInput(m),
            _ => BotError::StoreUnavailable,
        }
    }
}

/// A bot name: trimmed, 1 to 80 bytes.
pub open spec fn valid_bot_name(n: Seq<char>) -> bool {
    n.len() > 0 && utf8_len(n) <= 80
}

pub fn normalize_name(name: String) -> (r: Result<String, BotError>)
    ensures
        match r {
            Ok(s) => valid_bot_name(trim_seq(name@)) && s@ == trim_seq(name@),
            Err(e) => !valid_bot_name(trim_seq(name@)) && e == BotError::InvalidInput(
                "bot application name must be 1 to 80 characters",
            ),
        },
{
    let n = trimmed(name.as_str());
    if n.len() == 0 || !utf8_len_at_most(&n, 80) {
        Err(BotError::InvalidInput("bot application name must be 1 to 80 characters"))
    } else {
        Ok(string_of(&n))
    }
}

/// A description: trimmed; none when empty; at most 500 bytes.
pub open spec fn bot_description(description: Option<String>) -> Result<Option<Seq<char>>, BotError> {
    match description {
        None => Ok(None),
        Some(d) => if trim_seq(d@).len() == 0 {
            Ok(None)
        } else if utf8_len(trim_seq(d@)) > 500 {
            Err(BotError::InvalidInput("bot application description must be at most 500 characters"))
        } else {
            Ok(Some(trim_seq(d@)))
        },
    }
}

pub open spec fn opt_view(o: Option<String>) -> Option<Seq<char>> {
    match o {
        Some(s) => Some(s@),
        None => None,
    }
}

pub fn normalize_description(description: Option<String>) -> (r: Result<Option<String>, BotError>)
    ensures
        match bot_description(description) {
            Ok(d) => r matches Ok(v) && opt_view(v) == d,
            Err(e) => r == Err::<Option<String>, BotError>(e),
        },
{
    match description {
        None => Ok(None),
        Some(d) => {
            let t = trimmed(d.as_str());
            if t.len() == 0 {
                Ok(None)
            } else if !utf8_len_at_most(&t, 500) {
                Err(BotError::InvalidInput("bot application description must be at most 500 characters"))
            } else {
                Ok(Some(string_of(&t)))
            }
        },
    }
}

/// A new bot token: `ocb_` and 32 random bytes in hex.
pub fn generate_bot_token() -> (r: String)
    ensures
        exists|b: Seq<u8>| b.len() == 32 && r@ == "ocb_"@ + hex_of(b),
{
    let bytes = random_bytes_32();
    let hex = hex_encode(bytes.as_slice());
    let mut v = chars_of("ocb_");
    push_str(&mut v, hex.as_str());
    string_of(&v)
}

/// What a bot token is stored as: the hex SHA-256 of its bytes.
pub fn hash_bot_token(token: &str) -> (r: String)
    ensures
        r@ == token_hash(token@),
{
    hash_token_hex(token)
}

/// The last four characters of a token.
pub fn token_last_four(token: &str) -> (r: String)
    ensures
        r@ == last_chars(token@, 4),
{
    string_of(&last_chars_of(&chars_of(token), 4))
}

/// The email of a bot user: `bot-`, the simple id, `@bots.opencord.local`.
pub open spec fn bot_email(bot_user_id: u128) -> Seq<char> {
    "bot-"@ + uuid_simple(bot_user_id) + "@bots.opencord.local"@
}

pub fn bot_user_email(bot_user_id: u128) -> (r: String)
    ensures
        r@ == bot_email(bot_user_id),
{
    let mut v = chars_of("bot-");
    push_str(&mut v, uuid_simple_string(bot_user_id).as_str());
    push_str(&mut v, "@bots.opencord.local");
    string_of(&v)
}

/// The password hash of a bot user, which no password matches.
pub fn bot_user_password_marker(application_id: u128) -> (r: String)
    ensures
        r@ == "bot-user:"@ + uuid_hyphenated(application_id),
{
    let mut v = chars_of("bot-user:");
    push_str(&mut v, uuid_to_string(application_id).as_str());
    string_of(&v)
}

/// The ids a new application uses.
#[derive(Clone, Copy, Debug, PartialEq, Eq)]
pub struct BotApplicationIds {
    pub application_id: u128,
    pub bot_user_id: u128,
    pub token_id: u128,
}

/// The checked name and description of a new application
/// (`create_application` before it creates the bot user).
pub fn check_bot_application(input: &CreateBotApplicationInput) -> (r: Result<(String, Option<String>), BotError>)
    ensures
        match r {
            Ok(v) => valid_bot_name(trim_seq(input.name@)) && v.0@ == trim_seq(input.name@) && bot_description(input.description)
                == Ok::<Option<Seq<char>>, BotError>(opt_view(v.1)),
            Err(e) => {
                ||| !valid_bot_name(trim_seq(input.name@)) && e == BotError::InvalidInput(
                    "bot application name must be 1 to 80 characters",
                )
                ||| valid_bot_name(trim_seq(input.name@)) && bot_description(input.description) == Err::<Option<Seq<char>>, BotError>(e)
            },
        },
{
    let name = normalize_name(input.name.clone())?;
    let description = normalize_description(input.description.clone())?;
    Ok((name, description))
}

/// The bot user of a new application.
pub fn bot_user(ids: BotApplicationIds, name: &String) -> (r: StoredUser)
    ensures
        r.id == ids.bot_user_id && r.email@ == bot_email(ids.bot_user_id) && r.display_name@ == name@,
        r.password_hash@ == "bot-user:"@ + uuid_hyphenated(ids.application_id),
{
    StoredUser {
        id: ids.bot_user_id,
        email: bot_user_email(ids.bot_user_id),
        display_name: name.clone(),
        password_hash: bot_user_password_marker(ids.application_id),
    }
}

fn copy_application(a: &BotApplication) -> (r: BotApplication)
    ensures
        r == *a,
{
    let description = match &a.description {
        Some(d) => Some(d.clone()),
        None => None,
    };
    BotApplication {
        id: a.id,
        organization_id: a.organization_id,
        bot_user_id: a.bot_user_id,
        created_by_user_id: a.created_by_user_id,
        name: a.name.clone(),
        description,
        status: a.status.clone(),
    }
}

/// The application, its stored token and what the caller is shown, for a
/// new token `token` (`create_application` after the bot user exists).
pub fn bot_application_records(
    ids: BotApplicationIds,
    input: &CreateBotApplicationInput,
    name: String,
    description: Option<String>,
    token: String,
) -> (r: (BotApplication, StoredBotToken, BotApplicationCreated))
    ensures
        r.0 == (BotApplication {
            id: ids.application_id,
            organization_id: input.organization_id,
            bot_user_id: ids.bot_user_id,
            created_by_user_id: input.created_by_user_id,
            name: r.0.name,
            description: r.0.description,
            status: r.0.status,
        }),
        r.0.name@ == name@ && opt_view(r.0.description) == opt_view(description) && r.0.status@ == "active"@,
        r.1.id == ids.token_id && r.1.application_id == ids.application_id && r.1.created_by_user_id == input.created_by_user_id,
        r.1.token_hash@ == token_hash(token@) && r.1.token_last_four@ == last_chars(token@, 4) && r.1.active,
        r.2.application == r.0,
        r.2.token.id == ids.token_id && r.2.token.application_id == ids.application_id,
        r.2.token.token@ == token@ && r.2.token.token_last_four@ == last_chars(token@, 4),
{
    let application = BotApplication {
        id: ids.application_id,
        organization_id: input.organization_id,
        bot_user_id: ids.bot_user_id,
        created_by_user_id: input.created_by_user_id,
        name,
        description,
        status: string_of(&chars_of("active")),
    };
    let last_four = token_last_four(token.as_str());
    let stored = StoredBotToken {
        id: ids.token_id,
        application_id: ids.application_id,
        token_hash: hash_bot_token(token.as_str()),
        token_last_four: last_four.clone(),
        created_by_user_id: input.created_by_user_id,
        active: true,
    };
    let created = BotApplicationCreated {
        application: copy_application(&application),
        token: BotToken { id: ids.token_id, application_id: ids.application_id, token, token_last_four: last_four },
    };
    (application, stored, created)
}

} // verus!
