//! Application commands of bots and the interactions users start with them.
use vstd::prelude::*;

use crate::crypto::{hash_token_hex, hex_encode, hex_of, random_bytes_32, token_hash};
use crate::domain::bot::AuthenticatedBot;
use crate::domain::json::JsonValue;
use crate::text::{
    chars_of, eq_str, is_ascii_digit, is_ascii_lower, last_chars, last_chars_of, lower_seq, push_str, starts_with,
    starts_with_str, string_of, trim_seq, trimmed, trimmed_lower, utf8_len, utf8_len_between,
};

verus! {

#[derive(Debug)]
pub struct ApplicationCommand {
    pub id: u128,
    pub application_id: u128,
    pub organization_id: u128,
    pub space_id: u128,
    pub created_by_bot_user_id: u128,
    pub name: String,
    pub description: String,
    pub kind: i32,
    pub options: JsonValue,
    pub status: String,
    pub created_at: String,
    pub updated_at: String,
}

#[derive(Debug)]
pub struct CommandInteraction {
    pub id: u128,
    pub application_id: u128,
    pub organization_id: u128,
    pub space_id: u128,
    pub channel_id: u128,
    pub command_id: u128,
    pub invoking_user_id: u128,
    pub token_hash: String,
    pub token_last_four: String,
    pub status: String,
    pub options: JsonValue,
    pub created_at: String,
    pub responded_at: Option<String>,
}

#[derive(Debug)]
pub struct CommandInteractionCreated {
    pub interaction: CommandInteraction,
    pub token: String,
}

#[derive(Debug)]
pub struct CreateApplicationCommandInput {
    pub bot: AuthenticatedBot,
    pub space_id: u128,
    pub name: String,
    pub description: String,
    pub kind: Option<i32>,
    pub options: Option<JsonValue>,
}

#[derive(Debug)]
pub struct CreateCommandInteractionInput {
    pub command_id: u128,
    pub organization_id: u128,
    pub space_id: u128,
    pub channel_id: u128,
    pub invoking_user_id: u128,
    pub options: Option<JsonValue>,
}

#[derive(Clone, Copy, Debug, PartialEq, Eq)]
pub enum CommandError {
    InvalidInput(&'static str),
    Unauthorized,
    NotFound,
    AlreadyResponded,
    StoreUnavailable,
}

impl CommandError {
    pub fn status_code(&self) -> (r: u16)
        ensures
            r == (match self {
                CommandError::InvalidInput(_) => 400u16,
                CommandError::Unauthorized => 401,
                CommandError::NotFound => 404,
                CommandError::AlreadyResponded => 409,
                CommandError::StoreUnavailable => 500,
            }),
    {
        match self {
            CommandError::InvalidInput(_) => 400,
            CommandError::Unauthorized => 401,
            CommandError::NotFound => 404,
            CommandError::AlreadyResponded => 409,
            CommandError::StoreUnavailable => 500,
        }
    }

    pub fn code(&self) -> (r: &'static str)
        ensures
            r@ == (match self {
                CommandError::InvalidInput(_) => "invalid_request"@,
                CommandError::Unauthorized => "unauthorized"@,
                CommandError::NotFound => "command_not_found"@,
                CommandError::AlreadyResponded => "interaction_already_responded"@,
                CommandError::StoreUnavailable => "command_store_unavailable"@,
            }),
    {
        match self {
            CommandError::InvalidInput(_) => "invalid_request",
            CommandError::Unauthorized => "unauthorized",
            CommandError::NotFound => "command_not_found",
            CommandError::AlreadyResponded => "interaction_already_responded",
            CommandError::StoreUnavailable => "command_store_unavailable",
        }
    }

    pub fn message(&self) -> (r: &'static str)
        ensures
            r@ == (match self {
                CommandError::InvalidInput(m) => m@,
                CommandError::Unauthorized => "valid interaction token is required"@,
                CommandError::NotFound => "command or interaction was not found"@,
                CommandError::AlreadyResponded => "interaction has already been responded to"@,
                CommandError::StoreUnavailable => "command store is unavailable"@,
            }),
    {
        match self {
            CommandError::InvalidInput(m) => m,
            CommandError::Unauthorized => "valid interaction token is required",
            CommandError::NotFound => "command or interaction was not found",
            CommandError::AlreadyResponded => "interaction has already been responded to",
            CommandError::StoreUnavailable => "command store is unavailable",
        }
    }
}

/// A character allowed in a command name.
pub open spec fn name_char(c: char) -> bool {
    is_ascii_lower(c) || is_ascii_digit(c) || c == '_' || c == '-'
}

/// The outcome for a command name: trimmed and ASCII lower-cased, 1 to 32
/// bytes, of lower-case letters, digits, `_` and `-`.
pub open spec fn command_name_outcome(name: Seq<char>) -> Result<Seq<char>, CommandError> {
    let n = lower_seq(trim_seq(name));
    if !(1 <= utf8_len(n) <= 32) {
        Err(CommandError::InvalidInput("command name must be 1 to 32 characters"))
    } else if !(forall|i: int| 0 <= i < n.len() ==> name_char(#[trigger] n[i])) {
        Err(CommandError::InvalidInput("command name must contain lowercase letters, numbers, underscores, or hyphens"))
    } else {
        Ok(n)
    }
}

pub fn normalize_command_name(name: String) -> (r: Result<String, CommandError>)
    ensures
        match command_name_outcome(name@) {
            Ok(n) => r matches Ok(s) && s@ == n,
            Err(e) => r == Err::<String, CommandError>(e),
        },
{
    let n = trimmed_lower(name.as_str());
    if !utf8_len_between(&n, 1, 32) {
        return Err(CommandError::InvalidInput("command name must be 1 to 32 characters"));
    }
    let mut i: usize = 0;
    while i < n.len()
        invariant
            i <= n.len(),
            n@ == lower_seq(trim_seq(name@)),
            1 <= utf8_len(n@) <= 32,
            forall|k: int| 0 <= k < i ==> name_char(#[trigger] n@[k]),
        decreases n.len() - i,
    {
        let c = n[i];
        if !(('a' <= c && c <= 'z') || ('0' <= c && c <= '9') || c == '_' || c == '-') {
            assert(!name_char(n@[i as int]));
            return Err(CommandError::InvalidInput(
                "command name must contain lowercase letters, numbers, underscores, or hyphens",
            ));
        }
        i += 1;
    }
    Ok(string_of(&n))
}

/// A command description: trimmed, 1 to 100 bytes.
pub open spec fn valid_command_description(d: Seq<char>) -> bool {
    1 <= utf8_len(d) <= 100
}

pub fn normalize_description(description: String) -> (r: Result<String, CommandError>)
    ensures
        match r {
            Ok(s) => valid_command_description(trim_seq(description@)) && s@ == trim_seq(description@),
            Err(e) => !valid_command_description(trim_seq(description@)) && e == CommandError::InvalidInput(
                "command description must be 1 to 100 characters",
            ),
        },
{
    let d = trimmed(description.as_str());
    if utf8_len_between(&d, 1, 100) {
        Ok(string_of(&d))
    } else {
        Err(CommandError::InvalidInput("command description must be 1 to 100 characters"))
    }
}

/// Only chat input commands (command type 1, the default) are supported.
pub fn normalize_command_kind(kind: Option<i32>) -> (r: Result<i32, CommandError>)
    ensures
        r == (match kind {
            None => Ok::<i32, CommandError>(1),
            Some(k) => if k == 1 {
                Ok::<i32, CommandError>(1)
            } else {
                Err(CommandError::InvalidInput("only chat input commands are supported"))
            },
        }),
{
    match kind {
        None => Ok(1),
        Some(k) => if k == 1 {
            Ok(1)
        } else {
            Err(CommandError::InvalidInput("only chat input commands are supported"))
        },
    }
}

/// Why command options are refused, if they are: not an array, or more
/// than 25 entries (none given means an empty array).
pub open spec fn options_error(options: Option<JsonValue>) -> Option<CommandError> {
    match options {
        None => None,
        Some(v) => match v {
            JsonValue::Array(items) => if items@.len() <= 25 {
                None
            } else {
                Some(CommandError::InvalidInput("command options cannot contain more than 25 entries"))
            },
            _ => Some(CommandError::InvalidInput("command options must be an array")),
        },
    }
}

pub fn normalize_options(options: Option<JsonValue>) -> (r: Result<JsonValue, CommandError>)
    ensures
        match options {
            None => r matches Ok(v) && v matches JsonValue::Array(items) && items@.len() == 0,
            Some(v) => match v {
                JsonValue::Array(items) => if items@.len() <= 25 {
                    r == Ok::<JsonValue, CommandError>(v)
                } else {
                    r == Err::<JsonValue, CommandError>(CommandError::InvalidInput("command options cannot contain more than 25 entries"))
                },
                _ => r == Err::<JsonValue, CommandError>(CommandError::InvalidInput("command options must be an array")),
            },
        },
{
    match options {
        None => Ok(JsonValue::Array(Vec::new())),
        Some(v) => {
            let n: Option<usize> = match &v {
                JsonValue::Array(items) => Some(items.len()),
                _ => None,
            };
            match n {
                Some(len) => if len <= 25 {
                    Ok(v)
                } else {
                    Err(CommandError::InvalidInput("command options cannot contain more than 25 entries"))
                },
                None => Err(CommandError::InvalidInput("command options must be an array")),
            }
        },
    }
}

/// Interaction options: an array, empty when none is given.
pub fn normalize_interaction_options(options: Option<JsonValue>) -> (r: Result<JsonValue, CommandError>)
    ensures
        match options {
            None => r matches Ok(v) && v matches JsonValue::Array(items) && items@.len() == 0,
            Some(v) => if v is Array {
                r == Ok::<JsonValue, CommandError>(v)
            } else {
                r == Err::<JsonValue, CommandError>(CommandError::InvalidInput("interaction options must be an array"))
            },
        },
{
    match options {
        None => Ok(JsonValue::Array(Vec::new())),
        Some(v) => {
            let is_array = match &v {
                JsonValue::Array(_) => true,
                _ => false,
            };
            if is_array {
                Ok(v)
            } else {
                Err(CommandError::InvalidInput("interaction options must be an array"))
            }
        },
    }
}

/// A new interaction token: `oci_` and 32 random bytes in hex.
pub fn generate_interaction_token() -> (r: String)
    ensures
        exists|b: Seq<u8>| b.len() == 32 && r@ == "oci_"@ + hex_of(b),
{
    let bytes = random_bytes_32();
    let hex = hex_encode(bytes.as_slice());
    let mut v = chars_of("oci_");
    push_str(&mut v, hex.as_str());
    string_of(&v)
}

/// What an interaction token is stored as: the hex SHA-256 of its bytes.
pub fn hash_interaction_token(token: &str) -> (r: String)
    ensures
        r@ == token_hash(token@),
{
    hash_token_hex(token)
}

/// The last four characters of a token.
pub fn token_last_four(token: &str) -> (r: String)
    ensures
        r@ == last_chars(token@, 4),
{
    string_of(&last_chars_of(&chars_of(token), 4))
}

/// A new command of a bot in a space (`create_space_command` before the
/// store call). Checked in order: name, description, kind, options.
pub fn new_space_command(id: u128, now: String, input: CreateApplicationCommandInput) -> (r: Result<ApplicationCommand, CommandError>)
    ensures
        match r {
            Ok(c) => {
                &&& command_name_outcome(input.name@) == Ok::<Seq<char>, CommandError>(c.name@)
                &&& valid_command_description(trim_seq(input.description@)) && c.description@ == trim_seq(input.description@)
                &&& (input.kind is None || input.kind == Some(1i32)) && c.kind == 1
                &&& options_error(input.options) is None
                &&& (input.options matches Some(v) ==> c.options == v)
                &&& c.id == id && c.application_id == input.bot.application_id
                &&& c.organization_id == input.bot.organization_id && c.space_id == input.space_id
                &&& c.created_by_bot_user_id == input.bot.bot_user_id && c.status@ == "active"@
                &&& c.created_at@ == now@ && c.updated_at@ == now@
            },
            Err(e) => {
                ||| command_name_outcome(input.name@) == Err::<Seq<char>, CommandError>(e)
                ||| command_name_outcome(input.name@) is Ok && !valid_command_description(trim_seq(input.description@))
                    && e == CommandError::InvalidInput("command description must be 1 to 100 characters")
                ||| command_name_outcome(input.name@) is Ok && valid_command_description(trim_seq(input.description@))
                    && !(input.kind is None || input.kind == Some(1i32))
                    && e == CommandError::InvalidInput("only chat input commands are supported")
                ||| command_name_outcome(input.name@) is Ok && valid_command_description(trim_seq(input.description@))
                    && (input.kind is None || input.kind == Some(1i32)) && options_error(input.options) == Some(e)
            },
        },
{
    let name = normalize_command_name(input.name)?;
    let description = normalize_description(input.description)?;
    let kind = normalize_command_kind(input.kind)?;
    let options = normalize_options(input.options)?;
    Ok(ApplicationCommand {
        id,
        application_id: input.bot.application_id,
        organization_id: input.bot.organization_id,
        space_id: input.space_id,
        created_by_bot_user_id: input.bot.bot_user_id,
        name,
        description,
        kind,
        options,
        status: string_of(&chars_of("active")),
        created_at: now.clone(),
        updated_at: now,
    })
}

/// A command that is found by its id.
pub fn found_command(command: Option<ApplicationCommand>) -> (r: Result<ApplicationCommand, CommandError>)
    ensures
        match command {
            Some(c) => r == Ok::<ApplicationCommand, CommandError>(c),
            None => r == Err::<ApplicationCommand, CommandError>(CommandError::NotFound),
        },
{
    match command {
        Some(c) => Ok(c),
        None => Err(CommandError::NotFound),
    }
}

/// A new interaction with a command, for a new token (`create_interaction`
/// after the command is read). A command of another organization or space
/// is not found.
pub fn new_interaction(
    id: u128,
    now: String,
    command: &ApplicationCommand,
    input: CreateCommandInteractionInput,
    token: String,
) -> (r: Result<CommandInteractionCreated, CommandError>)
    ensures
        command.organization_id != input.organization_id || command.space_id != input.space_id ==> r
            == Err::<CommandInteractionCreated, CommandError>(CommandError::NotFound),
        command.organization_id == input.organization_id && command.space_id == input.space_id ==> match input.options {
            Some(v) => if v is Array {
                r is Ok
            } else {
                r == Err::<CommandInteractionCreated, CommandError>(
                    CommandError::InvalidInput("interaction options must be an array"),
                )
            },
            None => r is Ok,
        },
        r matches Ok(c) ==> {
            &&& c.token@ == token@
            &&& c.interaction.id == id && c.interaction.application_id == command.application_id
            &&& c.interaction.organization_id == input.organization_id && c.interaction.space_id == input.space_id
            &&& c.interaction.channel_id == input.channel_id && c.interaction.command_id == command.id
            &&& c.interaction.invoking_user_id == input.invoking_user_id
            &&& c.interaction.token_hash@ == token_hash(token@)
            &&& c.interaction.token_last_four@ == last_chars(token@, 4)
            &&& c.interaction.status@ == "pending"@
            &&& (input.options matches Some(v) ==> c.interaction.options == v)
            &&& c.interaction.created_at@ == now@ && c.interaction.responded_at is None
        },
{
    if command.organization_id != input.organization_id || command.space_id != input.space_id {
        return Err(CommandError::NotFound);
    }
    let token_hash = hash_interaction_token(token.as_str());
    let token_last_four = token_last_four(token.as_str());
    let options = normalize_interaction_options(input.options)?;
    Ok(CommandInteractionCreated {
        interaction: CommandInteraction {
            id,
            application_id: command.application_id,
            organization_id: input.organization_id,
            space_id: input.space_id,
            channel_id: input.channel_id,
            command_id: command.id,
            invoking_user_id: input.invoking_user_id,
            token_hash,
            token_last_four,
            status: string_of(&chars_of("pending")),
            options,
            created_at: now,
            responded_at: None,
        },
        token,
    })
}

/// The hash to look a callback's interaction up by: the token must start
/// with `oci_`.
pub fn callback_token_hash(token: &str) -> (r: Result<String, CommandError>)
    ensures
        match r {
            Ok(h) => starts_with(token@, "oci_"@) && h@ == token_hash(token@),
            Err(e) => !starts_with(token@, "oci_"@) && e == CommandError::Unauthorized,
        },
{
    if !starts_with_str(&chars_of(token), "oci_") {
        return Err(CommandError::Unauthorized);
    }
    Ok(hash_interaction_token(token))
}

/// The interaction a callback answers: it must be found and still pending.
pub fn check_callback_interaction(found: Option<CommandInteraction>) -> (r: Result<CommandInteraction, CommandError>)
    ensures
        match found {
            None => r == Err::<CommandInteraction, CommandError>(CommandError::Unauthorized),
            Some(i) => if i.status@ == "pending"@ {
                r == Ok::<CommandInteraction, CommandError>(i)
            } else {
                r == Err::<CommandInteraction, CommandError>(CommandError::AlreadyResponded)
            },
        },
{
    match found {
        None => Err(CommandError::Unauthorized),
        Some(i) => {
            if eq_str(&chars_of(i.status.as_str()), "pending") {
                Ok(i)
            } else {
                Err(CommandError::AlreadyResponded)
            }
        },
    }
}

} // verus!
