//! SCIM provisioning: organization tokens and the users they provision.
use vstd::prelude::*;
use vstd::std_specs::convert::FromSpecImpl;

use crate::crypto::{bytes_of, hash_token_hex, hex_encode, hex_of, random_bytes_32, sha256, sha256_digest, token_hash, utf8_bytes};
use crate::domain::auth::{email_key, email_shape_ok, valid_email_shape, AuthError, StoredUser};
use crate::domain::ids::{uuid_hyphenated, uuid_to_string};
use crate::domain::organization::{OrganizationError, StoredOrganizationMember};
use crate::text::{chars_of, push_str, string_of, trim_seq, trimmed, trimmed_lower, utf8_len, utf8_len_between};

verus! {

#[derive(Clone, Debug, PartialEq, Eq)]
pub struct StoredScimToken {
    pub organization_id: u128,
    pub token_hash: String,
}

#[derive(Clone, Debug, PartialEq, Eq)]
pub struct StoredScimUser {
    pub id: u128,
    pub organization_id: u128,
    pub user_id: u128,
    pub external_id: String,
    pub user_name: String,
    pub display_name: String,
    pub active: bool,
}

#[derive(Clone, Debug, PartialEq, Eq)]
pub struct ScimToken {
    pub organization_id: u128,
    pub token: String,
}

#[derive(Clone, Debug, PartialEq, Eq)]
pub struct ScimUser {
    pub id: u128,
    pub organization_id: u128,
    pub user_id: u128,
    pub external_id: String,
    pub user_name: String,
    pub display_name: String,
    pub active: bool,
}

#[derive(Debug)]
pub struct ProvisionScimUserInput {
    pub external_id: String,
    pub user_name: String,
    pub display_name: Option<String>,
    pub active: bool,
}

#[derive(Clone, Copy, Debug, PartialEq, Eq)]
pub enum ScimError {
    InvalidInput(&'static str),
    Unauthorized,
    NotFound,
    StoreUnavailable,
}

impl ScimError {
    pub fn status_code(&self) -> (r: u16)
        ensures
            r == (match self {
                ScimError::InvalidInput(_) => 400u16,
                ScimError::Unauthorized => 401,
                ScimError::NotFound => 404,
                ScimError::StoreUnavailable => 500,
            }),
    {
        match self {
            ScimError::InvalidInput(_) => 400,
            ScimError::Unauthorized => 401,
            ScimError::NotFound => 404,
            ScimError::StoreUnavailable => 500,
        }
    }

    pub fn code(&self) -> (r: &'static str)
        ensures
            r@ == (match self {
                ScimError::InvalidInput(_) => "invalid_request"@,
                ScimError::Unauthorized => "unauthorized"@,
                ScimError::NotFound => "scim_user_not_found"@,
                ScimError::StoreUnavailable => "store_unavailable"@,
            }),
    {
        match self {
            ScimError::InvalidInput(_) => "invalid_request",
            ScimError::Unauthorized => "unauthorized",
            ScimError::NotFound => "scim_user_not_found",
            ScimError::StoreUnavailable => "store_unavailable",
        }
    }

    pub fn message(&self) -> (r: &'static str)
        ensures
            r@ == (match self {
                ScimError::InvalidInput(m) => m@,
                ScimError::Unauthorized => "valid SCIM bearer token is required"@,
                ScimError::NotFound => "SCIM user was not found"@,
                ScimError::StoreUnavailable => "SCIM store is unavailable"@,
            }),
    {
        match self {
            ScimError::InvalidInput(m) => m,
            ScimError::Unauthorized => "valid SCIM bearer token is required",
            ScimError::NotFound => "SCIM user was not found",
            ScimError::StoreUnavailable => "SCIM store is unavailable",
        }
    }
}

pub open spec fn scim_from_auth(error: AuthError) -> ScimError {
    match error {
        AuthError::InvalidInput(m) => ScimError::InvalidInput(m),
        AuthError::Unauthorized => ScimError::Unauthorized,
        AuthError::InvalidCredentials => ScimError::Unauthorized,
        _ => ScimError::StoreUnavailable,
    }
}

impl From<AuthError> for ScimError {
    fn from(error: AuthError) -> (r: ScimError) {
        match error {
            AuthError::InvalidInput(m) => ScimError::InvalidInput(m),
            AuthError::Unauthorized => ScimError::Unauthorized,
            AuthError::InvalidCredentials => ScimError::Unauthorized,
            _ => ScimError::StoreUnavailable,
        }
    }
}

impl FromSpecImpl<AuthError> for ScimError {
    open spec fn obeys_from_spec() -> bool {
        true
    }

    open spec fn from_spec(error: AuthError) -> ScimError {
        scim_from_auth(error)
    }
}

pub open spec fn scim_from_organization(error: OrganizationError) -> ScimError {
    match error {
        OrganizationError::InvalidInput(m) => ScimError::InvalidInput(m),
        OrganizationError::NotFound => ScimError::NotFound,
        _ => ScimError::StoreUnavailable,
    }
}

impl From<OrganizationError> for ScimError {
    fn from(error: OrganizationError) -> (r: ScimError) {
        match error {
            OrganizationError::InvalidInput(m) => ScimError::InvalidInput(m),
            OrganizationError::NotFound => ScimError::NotFound,
            _ => ScimError::StoreUnavailable,
        }
    }
}

impl FromSpecImpl<OrganizationError> for ScimError {
    open spec fn obeys_from_spec() -> bool {
        true
    }

    open spec fn from_spec(error: OrganizationError) -> ScimError {
        scim_from_organization(error)
    }
}

impl From<StoredScimUser> for ScimUser {
    fn from(user: StoredScimUser) -> (r: ScimUser) {
        ScimUser {
            id: user.id,
            organization_id: user.organization_id,
            user_id: user.user_id,
            external_id: user.external_id,
            user_name: user.user_name,
            display_name: user.display_name,
            active: user.active,
        }
    }
}

impl FromSpecImpl<StoredScimUser> for ScimUser {
    open spec fn obeys_from_spec() -> bool {
        true
    }

    open spec fn from_spec(user: StoredScimUser) -> ScimUser {
        scim_user_of(user)
    }
}

/// The SCIM user a stored record describes: the same fields.
pub open spec fn scim_user_of(user: StoredScimUser) -> ScimUser {
    ScimUser {
        id: user.id,
        organization_id: user.organization_id,
        user_id: user.user_id,
        external_id: user.external_id,
        user_name: user.user_name,
        display_name: user.display_name,
        active: user.active,
    }
}

/// An external id: trimmed, 1 to 200 bytes.
pub open spec fn valid_external_id(e: Seq<char>) -> bool {
    1 <= utf8_len(e) <= 200
}

pub fn normalize_external_id(external_id: String) -> (r: Result<String, ScimError>)
    ensures
        match r {
            Ok(s) => valid_external_id(trim_seq(external_id@)) && s@ == trim_seq(external_id@),
            Err(e) => !valid_external_id(trim_seq(external_id@)) && e == ScimError::InvalidInput("SCIM externalId is required"),
        },
{
    let v = trimmed(external_id.as_str());
    if utf8_len_between(&v, 1, 200) {
        Ok(string_of(&v))
    } else {
        Err(ScimError::InvalidInput("SCIM externalId is required"))
    }
}

/// The user name is an email: trimmed, ASCII lower-cased, with the shape of
/// an email.
pub fn normalize_email(email: String) -> (r: Result<String, ScimError>)
    ensures
        match r {
            Ok(s) => valid_email_shape(email_key(email@)) && s@ == email_key(email@),
            Err(e) => !valid_email_shape(email_key(email@)) && e == ScimError::InvalidInput("SCIM userName must be a valid email"),
        },
{
    let e = trimmed_lower(email.as_str());
    if email_shape_ok(&e) {
        Ok(string_of(&e))
    } else {
        Err(ScimError::InvalidInput("SCIM userName must be a valid email"))
    }
}

/// The display name: the given one trimmed, or the fallback where none or
/// only white space is given.
pub open spec fn display_name_choice(display_name: Option<String>, fallback: Seq<char>) -> Seq<char> {
    match display_name {
        Some(d) => if trim_seq(d@).len() > 0 {
            trim_seq(d@)
        } else {
            fallback
        },
        None => fallback,
    }
}

pub fn normalize_display_name(display_name: Option<String>, fallback: &str) -> (r: Result<String, ScimError>)
    ensures
        match r {
            Ok(s) => 1 <= utf8_len(display_name_choice(display_name, fallback@)) <= 80 && s@ == display_name_choice(
                display_name,
                fallback@,
            ),
            Err(e) => !(1 <= utf8_len(display_name_choice(display_name, fallback@)) <= 80) && e == ScimError::InvalidInput(
                "SCIM display name must be between 1 and 80 characters",
            ),
        },
{
    let chosen = match &display_name {
        Some(d) => {
            let t = trimmed(d.as_str());
            if t.len() > 0 {
                t
            } else {
                chars_of(fallback)
            }
        },
        None => chars_of(fallback),
    };
    if utf8_len_between(&chosen, 1, 80) {
        Ok(string_of(&chosen))
    } else {
        Err(ScimError::InvalidInput("SCIM display name must be between 1 and 80 characters"))
    }
}

/// A new SCIM token: `opc-scim-` and 32 random bytes in hex.
pub fn generate_scim_token() -> (r: String)
    ensures
        exists|b: Seq<u8>| b.len() == 32 && r@ == "opc-scim-"@ + hex_of(b),
{
    let bytes = random_bytes_32();
    let hex = hex_encode(bytes.as_slice());
    let mut v = chars_of("opc-scim-");
    push_str(&mut v, hex.as_str());
    string_of(&v)
}

/// What a SCIM token is stored as: the hex SHA-256 of its bytes.
pub fn hash_scim_token(token: &str) -> (r: String)
    ensures
        r@ == token_hash(token@),
{
    hash_token_hex(token)
}

/// The password hash stored for a user SCIM creates, which no password
/// matches: `!scim:` and the hex SHA-256 of the organization id, a line feed
/// and the external id.
pub open spec fn scim_marker(organization_id: u128, external_id: Seq<char>) -> Seq<char> {
    "!scim:"@ + hex_of(sha256(utf8_bytes(uuid_hyphenated(organization_id)) + utf8_bytes("\n"@) + utf8_bytes(external_id)))
}

pub fn scim_password_marker(organization_id: u128, external_id: &str) -> (r: String)
    ensures
        r@ == scim_marker(organization_id, external_id@),
{
    let org = uuid_to_string(organization_id);
    let mut data = bytes_of(org.as_str());
    let mut nl = bytes_of("\n");
    let mut ext = bytes_of(external_id);
    data.append(&mut nl);
    data.append(&mut ext);
    let digest = sha256_digest(data.as_slice());
    let hex = hex_encode(digest.as_slice());
    let mut v = chars_of("!scim:");
    push_str(&mut v, hex.as_str());
    string_of(&v)
}

/// The hash to look a bearer token up by: the trimmed token's, which must
/// not be empty.
pub fn scim_token_lookup(token: &str) -> (r: Result<String, ScimError>)
    ensures
        match r {
            Ok(h) => trim_seq(token@).len() > 0 && h@ == token_hash(trim_seq(token@)),
            Err(e) => trim_seq(token@).len() == 0 && e == ScimError::Unauthorized,
        },
{
    let v = trimmed(token);
    if v.len() == 0 {
        return Err(ScimError::Unauthorized);
    }
    let t = string_of(&v);
    Ok(hash_token_hex(t.as_str()))
}

/// The organization a bearer token belongs to: the stored token found by
/// its hash, if any.
pub fn require_scim_token(found: Option<StoredScimToken>) -> (r: Result<StoredScimToken, ScimError>)
    ensures
        match found {
            Some(t) => r == Ok::<StoredScimToken, ScimError>(t),
            None => r == Err::<StoredScimToken, ScimError>(ScimError::Unauthorized),
        },
{
    match found {
        Some(t) => Ok(t),
        None => Err(ScimError::Unauthorized),
    }
}

/// The checked fields of a provisioning request: external id, user name,
/// then display name (defaulting to the user name).
pub fn check_provision_input(input: &ProvisionScimUserInput) -> (r: Result<(String, String, String), ScimError>)
    ensures
        match r {
            Ok(v) => {
                &&& valid_external_id(trim_seq(input.external_id@)) && v.0@ == trim_seq(input.external_id@)
                &&& valid_email_shape(email_key(input.user_name@)) && v.1@ == email_key(input.user_name@)
                &&& 1 <= utf8_len(display_name_choice(input.display_name, v.1@)) <= 80
                &&& v.2@ == display_name_choice(input.display_name, v.1@)
            },
            Err(e) => {
                ||| !valid_external_id(trim_seq(input.external_id@)) && e == ScimError::InvalidInput("SCIM externalId is required")
                ||| valid_external_id(trim_seq(input.external_id@)) && !valid_email_shape(email_key(input.user_name@))
                    && e == ScimError::InvalidInput("SCIM userName must be a valid email")
                ||| valid_external_id(trim_seq(input.external_id@)) && valid_email_shape(email_key(input.user_name@))
                    && !(1 <= utf8_len(display_name_choice(input.display_name, email_key(input.user_name@))) <= 80)
                    && e == ScimError::InvalidInput("SCIM display name must be between 1 and 80 characters")
            },
        },
{
    let external_id = normalize_external_id(input.external_id.clone())?;
    let user_name = normalize_email(input.user_name.clone())?;
    let display_name = normalize_display_name(input.display_name.clone(), user_name.as_str())?;
    Ok((external_id, user_name, display_name))
}

/// The user SCIM creates when no user has the email yet.
pub fn scim_new_user(id: u128, organization_id: u128, external_id: &str, user_name: &String, display_name: &String) -> (r: StoredUser)
    ensures
        r.id == id && r.email@ == user_name@ && r.display_name@ == display_name@,
        r.password_hash@ == scim_marker(organization_id, external_id@),
{
    StoredUser {
        id,
        email: user_name.clone(),
        display_name: display_name.clone(),
        password_hash: scim_password_marker(organization_id, external_id),
    }
}

/// The membership a provisioned user gets, if missing: an active member.
pub fn scim_membership(organization_id: u128, user_id: u128) -> (r: StoredOrganizationMember)
    ensures
        r.organization_id == organization_id && r.user_id == user_id,
        r.role@ == "member"@ && r.status@ == "active"@,
{
    StoredOrganizationMember {
        organization_id,
        user_id,
        role: string_of(&chars_of("member")),
        status: string_of(&chars_of("active")),
    }
}

/// The membership status that mirrors a SCIM user's `active` flag.
pub fn member_status_for(active: bool) -> (r: String)
    ensures
        r@ == (if active { "active"@ } else { "inactive"@ }),
{
    if active {
        string_of(&chars_of("active"))
    } else {
        string_of(&chars_of("inactive"))
    }
}

/// The SCIM user record to store.
pub fn scim_user_record(
    id: u128,
    organization_id: u128,
    user_id: u128,
    external_id: String,
    user_name: String,
    display_name: String,
    active: bool,
) -> (r: StoredScimUser)
    ensures
        r == (StoredScimUser { id, organization_id, user_id, external_id, user_name, display_name, active }),
{
    StoredScimUser { id, organization_id, user_id, external_id, user_name, display_name, active }
}

/// A user that is found by its external id.
pub fn found_scim_user(user: Option<StoredScimUser>) -> (r: Result<ScimUser, ScimError>)
    ensures
        match user {
            Some(u) => r == Ok::<ScimUser, ScimError>(scim_user_of(u)),
            None => r == Err::<ScimUser, ScimError>(ScimError::NotFound),
        },
{
    match user {
        Some(u) => Ok(ScimUser::from(u)),
        None => Err(ScimError::NotFound),
    }
}

} // verus!
