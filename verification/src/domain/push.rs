//! Push notification tokens of user devices.
use vstd::prelude::*;

use crate::crypto::{hash_token_hex, token_hash};
use crate::text::{
    chars_of, eq_str, last_chars, last_chars_of, lower_seq, string_of, trim_seq, trimmed, trimmed_lower, utf8_len,
    utf8_len_at_most, utf8_len_between,
};

verus! {

#[derive(Clone, Debug, PartialEq, Eq)]
pub struct PushToken {
    pub id: u128,
    pub user_id: u128,
    pub platform: PushPlatform,
    pub token: String,
    pub token_hash: String,
    pub token_last_four: String,
    pub device_name: Option<String>,
    pub created_at: String,
    pub updated_at: String,
}

#[derive(Clone, Copy, Debug, PartialEq, Eq, Hash, Structural)]
pub enum PushPlatform {
    Ios,
    Android,
    Web,
    Desktop,
}

pub open spec fn platform_name(p: PushPlatform) -> Seq<char> {
    match p {
        PushPlatform::Ios => "ios"@,
        PushPlatform::Android => "android"@,
        PushPlatform::Web => "web"@,
        PushPlatform::Desktop => "desktop"@,
    }
}

/// Whether a text names a platform once trimmed and lower-cased.
pub open spec fn known_platform(value: Seq<char>) -> bool {
    let k = lower_seq(trim_seq(value));
    k == "ios"@ || k == "android"@ || k == "web"@ || k == "desktop"@
}

impl PushPlatform {
    pub fn as_str(&self) -> (r: &'static str)
        ensures
            r@ == platform_name(*self),
    {
        match self {
            PushPlatform::Ios => "ios",
            PushPlatform::Android => "android",
            PushPlatform::Web => "web",
            PushPlatform::Desktop => "desktop",
        }
    }

    /// The platform named by `value`, trimmed and ASCII lower-cased.
    pub fn parse(value: &str) -> (r: Result<PushPlatform, PushError>)
        ensures
            match r {
                Ok(p) => platform_name(p) == lower_seq(trim_seq(value@)),
                Err(e) => e == PushError::InvalidInput("platform must be ios, android, web, or desktop")
                    && lower_seq(trim_seq(value@)) != "ios"@ && lower_seq(trim_seq(value@)) != "android"@
                    && lower_seq(trim_seq(value@)) != "web"@ && lower_seq(trim_seq(value@)) != "desktop"@,
            },
    {
        let k = trimmed_lower(value);
        if eq_str(&k, "ios") {
            Ok(PushPlatform::Ios)
        } else if eq_str(&k, "android") {
            Ok(PushPlatform::Android)
        } else if eq_str(&k, "web") {
            Ok(PushPlatform::Web)
        } else if eq_str(&k, "desktop") {
            Ok(PushPlatform::Desktop)
        } else {
            Err(PushError::InvalidInput("platform must be ios, android, web, or desktop"))
        }
    }
}

#[derive(Clone, Copy, Debug, PartialEq, Eq)]
pub enum PushError {
    InvalidInput(&'static str),
    StoreUnavailable,
}

impl PushError {
    pub fn status_code(&self) -> (r: u16)
        ensures
            r == (match self {
                PushError::InvalidInput(_) => 400u16,
                PushError::StoreUnavailable => 500,
            }),
    {
        match self {
            PushError::InvalidInput(_) => 400,
            PushError::StoreUnavailable => 500,
        }
    }

    pub fn code(&self) -> (r: &'static str)
        ensures
            r@ == (match self {
                PushError::InvalidInput(_) => "invalid_request"@,
                PushError::StoreUnavailable => "push_store_unavailable"@,
            }),
    {
        match self {
            PushError::InvalidInput(_) => "invalid_request",
            PushError::StoreUnavailable => "push_store_unavailable",
        }
    }

    pub fn message(&self) -> (r: &'static str)
        ensures
            r@ == (match self {
                PushError::InvalidInput(m) => m@,
                PushError::StoreUnavailable => "push token store is unavailable"@,
            }),
    {
        match self {
            PushError::InvalidInput(m) => m,
            PushError::StoreUnavailable => "push token store is unavailable",
        }
    }
}

/// A device token: trimmed, 8 to 4096 bytes.
pub open spec fn valid_device_token(t: Seq<char>) -> bool {
    8 <= utf8_len(t) <= 4096
}

pub fn normalize_token(token: String) -> (r: Result<String, PushError>)
    ensures
        match r {
            Ok(s) => valid_device_token(trim_seq(token@)) && s@ == trim_seq(token@),
            Err(e) => !valid_device_token(trim_seq(token@)) && e == PushError::InvalidInput(
                "device token must be between 8 and 4096 bytes",
            ),
        },
{
    let t = trimmed(token.as_str());
    if utf8_len_between(&t, 8, 4096) {
        Ok(string_of(&t))
    } else {
        Err(PushError::InvalidInput("device token must be between 8 and 4096 bytes"))
    }
}

/// A device name: trimmed; none when empty; at most 120 bytes.
pub open spec fn device_name_outcome(device_name: Option<String>) -> Result<Option<Seq<char>>, PushError> {
    match device_name {
        None => Ok(None),
        Some(d) => if trim_seq(d@).len() == 0 {
            Ok(None)
        } else if utf8_len(trim_seq(d@)) <= 120 {
            Ok(Some(trim_seq(d@)))
        } else {
            Err(PushError::InvalidInput("device name must be 120 characters or fewer"))
        },
    }
}

pub open spec fn opt_view(o: Option<String>) -> Option<Seq<char>> {
    match o {
        Some(s) => Some(s@),
        None => None,
    }
}

pub fn normalize_device_name(device_name: Option<String>) -> (r: Result<Option<String>, PushError>)
    ensures
        match device_name_outcome(device_name) {
            Ok(d) => r matches Ok(v) && opt_view(v) == d,
            Err(e) => r == Err::<Option<String>, PushError>(e),
        },
{
    match device_name {
        None => Ok(None),
        Some(d) => {
            let t = trimmed(d.as_str());
            if t.len() == 0 {
                Ok(None)
            } else if utf8_len_at_most(&t, 120) {
                Ok(Some(string_of(&t)))
            } else {
                Err(PushError::InvalidInput("device name must be 120 characters or fewer"))
            }
        },
    }
}

/// The last four characters of a token.
pub fn token_last_four(token: &str) -> (r: String)
    ensures
        r@ == last_chars(token@, 4),
{
    string_of(&last_chars_of(&chars_of(token), 4))
}

/// The hex SHA-256 of a push token.
pub fn hash_push_token(token: &str) -> (r: String)
    ensures
        r@ == token_hash(token@),
{
    hash_token_hex(token)
}

/// The token record to store (`register` before the store call). Checked
/// in order: platform, token, device name.
pub fn new_push_token(
    id: u128,
    user_id: u128,
    platform: &str,
    token: String,
    device_name: Option<String>,
    now: String,
) -> (r: Result<PushToken, PushError>)
    ensures
        match r {
            Ok(t) => {
                &&& platform_name(t.platform) == lower_seq(trim_seq(platform@))
                &&& valid_device_token(trim_seq(token@)) && t.token@ == trim_seq(token@)
                &&& t.token_hash@ == token_hash(trim_seq(token@))
                &&& t.token_last_four@ == last_chars(trim_seq(token@), 4)
                &&& device_name_outcome(device_name) == Ok::<Option<Seq<char>>, PushError>(opt_view(t.device_name))
                &&& t.id == id && t.user_id == user_id && t.created_at@ == now@ && t.updated_at@ == now@
            },
            Err(e) => {
                ||| !known_platform(platform@) && e == PushError::InvalidInput("platform must be ios, android, web, or desktop")
                ||| known_platform(platform@) && !valid_device_token(trim_seq(token@)) && e == PushError::InvalidInput(
                    "device token must be between 8 and 4096 bytes",
                )
                ||| known_platform(platform@) && valid_device_token(trim_seq(token@))
                    && device_name_outcome(device_name) == Err::<Option<Seq<char>>, PushError>(e)
            },
        },
{
    let platform = PushPlatform::parse(platform)?;
    let token = normalize_token(token)?;
    let token_hash = hash_push_token(token.as_str());
    let token_last_four = token_last_four(token.as_str());
    let device_name = normalize_device_name(device_name)?;
    Ok(PushToken {
        id,
        user_id,
        platform,
        token,
        token_hash,
        token_last_four,
        device_name,
        created_at: now.clone(),
        updated_at: now,
    })
}

} // verus!
