//! Messages: content, rich embeds, components, webhook overrides and
//! mentions, validated and normalised before they are stored.
use vstd::prelude::*;

use crate::domain::json::{keys_all_within, keys_within, obj_get, obj_lookup, JsonNumber, JsonValue};
use crate::text::{
    chars_of, eq_str, starts_with, starts_with_str, string_of, trim, trim_seq, trimmed, utf8_len,
    utf8_len_at_most, utf8_len_between,
};
use crate::time::{chrono_representable, format_rfc3339, parse_rfc3339, rfc3339_instant, rfc3339_text};

verus! {

#[derive(Debug, PartialEq, Eq)]
pub enum MessageError {
    InvalidInput(&'static str),
    NotFound,
    StoreUnavailable,
}

impl MessageError {
    pub fn status_code(&self) -> (r: u16)
        ensures
            r == (match self {
                MessageError::InvalidInput(_) => 400u16,
                MessageError::NotFound => 404,
                MessageError::StoreUnavailable => 500,
            }),
    {
        match self {
            MessageError::InvalidInput(_) => 400,
            MessageError::NotFound => 404,
            MessageError::StoreUnavailable => 500,
        }
    }

    pub fn code(&self) -> (r: &'static str)
        ensures
            r@ == (match self {
                MessageError::InvalidInput(_) => "invalid_request"@,
                MessageError::NotFound => "message_not_found"@,
                MessageError::StoreUnavailable => "store_unavailable"@,
            }),
    {
        match self {
            MessageError::InvalidInput(_) => "invalid_request",
            MessageError::NotFound => "message_not_found",
            MessageError::StoreUnavailable => "store_unavailable",
        }
    }

    pub fn message(&self) -> (r: &'static str)
        ensures
            r@ == (match self {
                MessageError::InvalidInput(m) => m@,
                MessageError::NotFound => "message was not found"@,
                MessageError::StoreUnavailable => "message store is unavailable"@,
            }),
    {
        match self {
            MessageError::InvalidInput(m) => m,
            MessageError::NotFound => "message was not found",
            MessageError::StoreUnavailable => "message store is unavailable",
        }
    }
}

pub open spec fn opt_chars(o: Option<String>) -> Option<Seq<char>> {
    match o {
        Some(s) => Some(s@),
        None => None,
    }
}

/// Message content: trimmed, at most 4000 bytes, and non-empty unless
/// `allow_empty` (a message with attachments).
pub open spec fn valid_content(content: Seq<char>, allow_empty: bool) -> bool {
    let c = trim_seq(content);
    (if allow_empty {
        0nat
    } else {
        1nat
    }) <= utf8_len(c) <= 4000
}

pub fn normalize_content(content: String, allow_empty: bool) -> (r: Result<String, MessageError>)
    ensures
        match r {
            Ok(c) => valid_content(content@, allow_empty) && c@ == trim_seq(content@),
            Err(e) => !valid_content(content@, allow_empty) && e == MessageError::InvalidInput(
                "message content must be between 1 and 4000 characters unless attachments are present",
            ),
        },
{
    let c = trimmed(content.as_str());
    let min: usize = if allow_empty {
        0
    } else {
        1
    };
    if utf8_len_between(&c, min, 4000) {
        Ok(string_of(&c))
    } else {
        Err(
            MessageError::InvalidInput(
                "message content must be between 1 and 4000 characters unless attachments are present",
            ),
        )
    }
}

/// An HTTP(S) URL of at most 2048 bytes.
pub open spec fn http_url(v: Seq<char>) -> bool {
    utf8_len(v) <= 2048 && (starts_with(v, "https://"@) || starts_with(v, "http://"@))
}

pub fn is_http_url(value: &Vec<char>) -> (r: bool)
    ensures
        r == http_url(value@),
{
    utf8_len_at_most(value, 2048) && (starts_with_str(value, "https://") || starts_with_str(
        value,
        "http://",
    ))
}

/// The keys an embed may have.
pub open spec fn supported_embed_key(key: Seq<char>) -> bool {
    ||| key == "title"@
    ||| key == "type"@
    ||| key == "description"@
    ||| key == "url"@
    ||| key == "timestamp"@
    ||| key == "color"@
    ||| key == "footer"@
    ||| key == "image"@
    ||| key == "thumbnail"@
    ||| key == "author"@
    ||| key == "fields"@
}

pub fn is_supported_embed_key(key: &str) -> (r: bool)
    ensures
        r == supported_embed_key(key@),
{
    let k = chars_of(key);
    eq_str(&k, "title") || eq_str(&k, "type") || eq_str(&k, "description") || eq_str(&k, "url")
        || eq_str(&k, "timestamp") || eq_str(&k, "color") || eq_str(&k, "footer") || eq_str(
        &k,
        "image",
    ) || eq_str(&k, "thumbnail") || eq_str(&k, "author") || eq_str(&k, "fields")
}

/// A text field of an object: absent, null or blank is no value; a string
/// is trimmed and may have at most `max` characters; anything else fails.
pub open spec fn text_field(
    entries: Seq<(String, JsonValue)>,
    key: Seq<char>,
    max: nat,
    message: &'static str,
) -> Result<Option<Seq<char>>, MessageError> {
    match obj_get(entries, key) {
        None => Ok(None),
        Some(JsonValue::Null) => Ok(None),
        Some(JsonValue::String(s)) => {
            let t = trim_seq(s@);
            if t.len() == 0 {
                Ok(None)
            } else if t.len() > max {
                Err(MessageError::InvalidInput(message))
            } else {
                Ok(Some(t))
            }
        },
        Some(_) => Err(MessageError::InvalidInput(message)),
    }
}

/// A URL field: like a text field, but the value must be an HTTP(S) URL.
pub open spec fn url_field(entries: Seq<(String, JsonValue)>, key: Seq<char>, message: &'static str) -> Result<
    Option<Seq<char>>,
    MessageError,
> {
    match obj_get(entries, key) {
        None => Ok(None),
        Some(JsonValue::Null) => Ok(None),
        Some(JsonValue::String(s)) => {
            let t = trim_seq(s@);
            if t.len() == 0 {
                Ok(None)
            } else if !http_url(t) {
                Err(MessageError::InvalidInput(message))
            } else {
                Ok(Some(t))
            }
        },
        Some(_) => Err(MessageError::InvalidInput(message)),
    }
}

pub fn optional_embed_text(
    object: &Vec<(String, JsonValue)>,
    key: &str,
    max_chars: usize,
    message: &'static str,
) -> (r: Result<Option<String>, MessageError>)
    ensures
        match r {
            Ok(o) => text_field(object@, key@, max_chars as nat, message) == Ok::<Option<Seq<char>>, MessageError>(opt_chars(o)),
            Err(e) => text_field(object@, key@, max_chars as nat, message) == Err::<Option<Seq<char>>, MessageError>(e),
        },
{
    match obj_lookup(object, key) {
        None => Ok(None),
        Some(JsonValue::Null) => Ok(None),
        Some(JsonValue::String(s)) => {
            let t = trimmed(s.as_str());
            if t.len() == 0 {
                Ok(None)
            } else if t.len() > max_chars {
                Err(MessageError::InvalidInput(message))
            } else {
                Ok(Some(string_of(&t)))
            }
        },
        Some(_) => Err(MessageError::InvalidInput(message)),
    }
}

pub fn optional_embed_url(object: &Vec<(String, JsonValue)>, key: &str, message: &'static str) -> (r: Result<
    Option<String>,
    MessageError,
>)
    ensures
        match r {
            Ok(o) => url_field(object@, key@, message) == Ok::<Option<Seq<char>>, MessageError>(opt_chars(o)),
            Err(e) => url_field(object@, key@, message) == Err::<Option<Seq<char>>, MessageError>(e),
        },
{
    match obj_lookup(object, key) {
        None => Ok(None),
        Some(JsonValue::Null) => Ok(None),
        Some(JsonValue::String(s)) => {
            let t = trimmed(s.as_str());
            if t.len() == 0 {
                Ok(None)
            } else if !is_http_url(&t) {
                Err(MessageError::InvalidInput(message))
            } else {
                Ok(Some(string_of(&t)))
            }
        },
        Some(_) => Err(MessageError::InvalidInput(message)),
    }
}

/// The timestamp of an embed: an RFC 3339 string, kept as its instant.
pub open spec fn timestamp_field(entries: Seq<(String, JsonValue)>) -> Result<Option<(i64, u32)>, MessageError> {
    match obj_get(entries, "timestamp"@) {
        None => Ok(None),
        Some(JsonValue::Null) => Ok(None),
        Some(JsonValue::String(s)) => match rfc3339_instant(trim_seq(s@)) {
            Some(t) => Ok(Some(t)),
            None => Err(MessageError::InvalidInput("embed timestamp must be RFC3339")),
        },
        Some(_) => Err(MessageError::InvalidInput("embed timestamp must be RFC3339")),
    }
}

pub fn optional_embed_timestamp(object: &Vec<(String, JsonValue)>) -> (r: Result<Option<(i64, u32)>, MessageError>)
    ensures
        r == timestamp_field(object@),
        r matches Ok(Some(t)) ==> chrono_representable(t.0, t.1),
{
    match obj_lookup(object, "timestamp") {
        None => Ok(None),
        Some(JsonValue::Null) => Ok(None),
        Some(JsonValue::String(s)) => {
            let t = string_of(&trimmed(s.as_str()));
            match parse_rfc3339(t.as_str()) {
                Some(i) => Ok(Some(i)),
                None => Err(MessageError::InvalidInput("embed timestamp must be RFC3339")),
            }
        },
        Some(_) => Err(MessageError::InvalidInput("embed timestamp must be RFC3339")),
    }
}

/// The color of an embed: an integer from 0 to 0xFFFFFF.
pub open spec fn color_field(entries: Seq<(String, JsonValue)>) -> Result<Option<u64>, MessageError> {
    match obj_get(entries, "color"@) {
        None => Ok(None),
        Some(JsonValue::Null) => Ok(None),
        Some(JsonValue::Number(JsonNumber::Unsigned(n))) => if n > 0xFF_FF_FF {
            Err(MessageError::InvalidInput("embed color must be an integer between 0 and 16777215"))
        } else {
            Ok(Some(n))
        },
        Some(_) => Err(MessageError::InvalidInput("embed color must be an integer between 0 and 16777215")),
    }
}

pub fn optional_embed_color(object: &Vec<(String, JsonValue)>) -> (r: Result<Option<u64>, MessageError>)
    ensures
        r == color_field(object@),
{
    match obj_lookup(object, "color") {
        None => Ok(None),
        Some(JsonValue::Null) => Ok(None),
        Some(JsonValue::Number(JsonNumber::Unsigned(n))) => if *n > 0xFF_FF_FF {
            Err(MessageError::InvalidInput("embed color must be an integer between 0 and 16777215"))
        } else {
            Ok(Some(*n))
        },
        Some(_) => Err(MessageError::InvalidInput("embed color must be an integer between 0 and 16777215")),
    }
}

#[derive(Clone, Debug, PartialEq, Eq)]
pub struct EmbedFooter {
    pub text: String,
    pub icon_url: Option<String>,
}

#[derive(Clone, Debug, PartialEq, Eq)]
pub struct EmbedAuthor {
    pub name: String,
    pub url: Option<String>,
    pub icon_url: Option<String>,
}

#[derive(Clone, Debug, PartialEq, Eq)]
pub struct EmbedField {
    pub name: String,
    pub value: String,
    pub inline: bool,
}

/// A normalised rich embed; its JSON form also has `"type": "rich"` and the
/// timestamp as RFC 3339 text in UTC with milliseconds.
#[derive(Clone, Debug, PartialEq, Eq)]
pub struct Embed {
    pub title: Option<String>,
    pub description: Option<String>,
    pub url: Option<String>,
    pub timestamp: Option<(i64, u32)>,
    pub color: Option<u64>,
    pub footer: Option<EmbedFooter>,
    pub image: Option<String>,
    pub thumbnail: Option<String>,
    pub author: Option<EmbedAuthor>,
    pub fields: Option<Vec<EmbedField>>,
}

pub struct FooterView {
    pub text: Seq<char>,
    pub icon_url: Option<Seq<char>>,
}

pub struct AuthorView {
    pub name: Seq<char>,
    pub url: Option<Seq<char>>,
    pub icon_url: Option<Seq<char>>,
}

pub struct FieldView {
    pub name: Seq<char>,
    pub value: Seq<char>,
    pub inline: bool,
}

pub struct EmbedView {
    pub title: Option<Seq<char>>,
    pub description: Option<Seq<char>>,
    pub url: Option<Seq<char>>,
    pub timestamp: Option<(i64, u32)>,
    pub color: Option<u64>,
    pub footer: Option<FooterView>,
    pub image: Option<Seq<char>>,
    pub thumbnail: Option<Seq<char>>,
    pub author: Option<AuthorView>,
    pub fields: Option<Seq<FieldView>>,
}

impl View for EmbedFooter {
    type V = FooterView;

    open spec fn view(&self) -> FooterView {
        FooterView { text: self.text@, icon_url: opt_chars(self.icon_url) }
    }
}

impl View for EmbedAuthor {
    type V = AuthorView;

    open spec fn view(&self) -> AuthorView {
        AuthorView { name: self.name@, url: opt_chars(self.url), icon_url: opt_chars(self.icon_url) }
    }
}

impl View for EmbedField {
    type V = FieldView;

    open spec fn view(&self) -> FieldView {
        FieldView { name: self.name@, value: self.value@, inline: self.inline }
    }
}

impl View for Embed {
    type V = EmbedView;

    open spec fn view(&self) -> EmbedView {
        EmbedView {
            title: opt_chars(self.title),
            description: opt_chars(self.description),
            url: opt_chars(self.url),
            timestamp: self.timestamp,
            color: self.color,
            footer: match self.footer {
                Some(f) => Some(f@),
                None => None,
            },
            image: opt_chars(self.image),
            thumbnail: opt_chars(self.thumbnail),
            author: match self.author {
                Some(a) => Some(a@),
                None => None,
            },
            fields: match self.fields {
                Some(fs) => Some(fs@.map_values(|f: EmbedField| f@)),
                None => None,
            },
        }
    }
}

/// The footer of an embed: an object with a required `text` (up to 2048
/// characters) and an optional `icon_url`.
pub open spec fn footer_field(entries: Seq<(String, JsonValue)>) -> Result<Option<FooterView>, MessageError> {
    match obj_get(entries, "footer"@) {
        None => Ok(None),
        Some(JsonValue::Null) => Ok(None),
        Some(JsonValue::Object(f)) => if !keys_within(f@, seq!["text"@, "icon_url"@]) {
            Err(MessageError::InvalidInput("embed footer contains unsupported fields"))
        } else {
            match text_field(f@, "text"@, 2048, "embed footer text must be 2048 characters or fewer") {
                Err(e) => Err(e),
                Ok(None) => Err(MessageError::InvalidInput("embed footer text is required")),
                Ok(Some(text)) => match url_field(
                    f@,
                    "icon_url"@,
                    "embed footer icon_url must be an HTTP or HTTPS URL up to 2048 characters",
                ) {
                    Err(e) => Err(e),
                    Ok(icon_url) => Ok(Some(FooterView { text, icon_url })),
                },
            }
        },
        Some(_) => Err(MessageError::InvalidInput("embed footer must be an object")),
    }
}

pub fn optional_embed_footer(object: &Vec<(String, JsonValue)>) -> (r: Result<Option<EmbedFooter>, MessageError>)
    ensures
        match r {
            Ok(Some(f)) => footer_field(object@) == Ok::<Option<FooterView>, MessageError>(Some(f@)),
            Ok(None) => footer_field(object@) == Ok::<Option<FooterView>, MessageError>(None),
            Err(e) => footer_field(object@) == Err::<Option<FooterView>, MessageError>(e),
        },
{
    match obj_lookup(object, "footer") {
        None => Ok(None),
        Some(JsonValue::Null) => Ok(None),
        Some(JsonValue::Object(f)) => {
            let allowed = vec!["text", "icon_url"];
            proof {
                reveal_strlit("text");
                reveal_strlit("icon_url");
                assert(allowed@.map_values(|s: &str| s@) =~= seq!["text"@, "icon_url"@]);
            }
            if !keys_all_within(f, &allowed) {
                return Err(MessageError::InvalidInput("embed footer contains unsupported fields"));
            }
            let text = match optional_embed_text(
                f,
                "text",
                2048,
                "embed footer text must be 2048 characters or fewer",
            )? {
                Some(t) => t,
                None => return Err(MessageError::InvalidInput("embed footer text is required")),
            };
            let icon_url = optional_embed_url(
                f,
                "icon_url",
                "embed footer icon_url must be an HTTP or HTTPS URL up to 2048 characters",
            )?;
            Ok(Some(EmbedFooter { text, icon_url }))
        },
        Some(_) => Err(MessageError::InvalidInput("embed footer must be an object")),
    }
}

/// The error text for an image or thumbnail URL.
pub open spec fn media_url_message(label: Seq<char>) -> &'static str {
    if label == "embed image"@ {
        "embed image url must be an HTTP or HTTPS URL up to 2048 characters"
    } else if label == "embed thumbnail"@ {
        "embed thumbnail url must be an HTTP or HTTPS URL up to 2048 characters"
    } else {
        "embed media url must be an HTTP or HTTPS URL up to 2048 characters"
    }
}

pub fn embed_media_url_message(label: &str) -> (r: &'static str)
    ensures
        r == media_url_message(label@),
{
    let l = chars_of(label);
    if eq_str(&l, "embed image") {
        "embed image url must be an HTTP or HTTPS URL up to 2048 characters"
    } else if eq_str(&l, "embed thumbnail") {
        "embed thumbnail url must be an HTTP or HTTPS URL up to 2048 characters"
    } else {
        "embed media url must be an HTTP or HTTPS URL up to 2048 characters"
    }
}

/// An image or thumbnail: an object with a required `url` and nothing else.
pub open spec fn media_field(entries: Seq<(String, JsonValue)>, key: Seq<char>, label: Seq<char>) -> Result<
    Option<Seq<char>>,
    MessageError,
> {
    match obj_get(entries, key) {
        None => Ok(None),
        Some(JsonValue::Null) => Ok(None),
        Some(JsonValue::Object(m)) => if !keys_within(m@, seq!["url"@]) {
            Err(MessageError::InvalidInput("embed media contains unsupported fields"))
        } else {
            match url_field(m@, "url"@, media_url_message(label)) {
                Err(e) => Err(e),
                Ok(None) => Err(MessageError::InvalidInput(media_url_message(label))),
                Ok(Some(u)) => Ok(Some(u)),
            }
        },
        Some(_) => Err(MessageError::InvalidInput("embed media must be an object")),
    }
}

pub fn optional_embed_media(object: &Vec<(String, JsonValue)>, key: &str, label: &str) -> (r: Result<
    Option<String>,
    MessageError,
>)
    ensures
        match r {
            Ok(o) => media_field(object@, key@, label@) == Ok::<Option<Seq<char>>, MessageError>(opt_chars(o)),
            Err(e) => media_field(object@, key@, label@) == Err::<Option<Seq<char>>, MessageError>(e),
        },
{
    match obj_lookup(object, key) {
        None => Ok(None),
        Some(JsonValue::Null) => Ok(None),
        Some(JsonValue::Object(m)) => {
            let allowed = vec!["url"];
            proof {
                reveal_strlit("url");
                assert(allowed@.map_values(|s: &str| s@) =~= seq!["url"@]);
            }
            if !keys_all_within(m, &allowed) {
                return Err(MessageError::InvalidInput("embed media contains unsupported fields"));
            }
            let message = embed_media_url_message(label);
            match optional_embed_url(m, "url", message)? {
                Some(u) => Ok(Some(u)),
                None => Err(MessageError::InvalidInput(message)),
            }
        },
        Some(_) => Err(MessageError::InvalidInput("embed media must be an object")),
    }
}

/// The author of an embed: a required `name` (up to 256 characters), an
/// optional `url` and `icon_url`.
pub open spec fn author_field(entries: Seq<(String, JsonValue)>) -> Result<Option<AuthorView>, MessageError> {
    match obj_get(entries, "author"@) {
        None => Ok(None),
        Some(JsonValue::Null) => Ok(None),
        Some(JsonValue::Object(a)) => if !keys_within(a@, seq!["name"@, "url"@, "icon_url"@]) {
            Err(MessageError::InvalidInput("embed author contains unsupported fields"))
        } else {
            match text_field(a@, "name"@, 256, "embed author name must be 256 characters or fewer") {
                Err(e) => Err(e),
                Ok(None) => Err(MessageError::InvalidInput("embed author name is required")),
                Ok(Some(name)) => match url_field(
                    a@,
                    "url"@,
                    "embed author url must be an HTTP or HTTPS URL up to 2048 characters",
                ) {
                    Err(e) => Err(e),
                    Ok(url) => match url_field(
                        a@,
                        "icon_url"@,
                        "embed author icon_url must be an HTTP or HTTPS URL up to 2048 characters",
                    ) {
                        Err(e) => Err(e),
                        Ok(icon_url) => Ok(Some(AuthorView { name, url, icon_url })),
                    },
                },
            }
        },
        Some(_) => Err(MessageError::InvalidInput("embed author must be an object")),
    }
}

pub fn optional_embed_author(object: &Vec<(String, JsonValue)>) -> (r: Result<Option<EmbedAuthor>, MessageError>)
    ensures
        match r {
            Ok(Some(a)) => author_field(object@) == Ok::<Option<AuthorView>, MessageError>(Some(a@)),
            Ok(None) => author_field(object@) == Ok::<Option<AuthorView>, MessageError>(None),
            Err(e) => author_field(object@) == Err::<Option<AuthorView>, MessageError>(e),
        },
{
    match obj_lookup(object, "author") {
        None => Ok(None),
        Some(JsonValue::Null) => Ok(None),
        Some(JsonValue::Object(a)) => {
            let allowed = vec!["name", "url", "icon_url"];
            proof {
                reveal_strlit("name");
                reveal_strlit("url");
                reveal_strlit("icon_url");
                assert(allowed@.map_values(|s: &str| s@) =~= seq!["name"@, "url"@, "icon_url"@]);
            }
            if !keys_all_within(a, &allowed) {
                return Err(MessageError::InvalidInput("embed author contains unsupported fields"));
            }
            let name = match optional_embed_text(
                a,
                "name",
                256,
                "embed author name must be 256 characters or fewer",
            )? {
                Some(n) => n,
                None => return Err(MessageError::InvalidInput("embed author name is required")),
            };
            let url = optional_embed_url(
                a,
                "url",
                "embed author url must be an HTTP or HTTPS URL up to 2048 characters",
            )?;
            let icon_url = optional_embed_url(
                a,
                "icon_url",
                "embed author icon_url must be an HTTP or HTTPS URL up to 2048 characters",
            )?;
            Ok(Some(EmbedAuthor { name, url, icon_url }))
        },
        Some(_) => Err(MessageError::InvalidInput("embed author must be an object")),
    }
}

/// One entry of an embed's `fields`.
pub open spec fn embed_field(v: JsonValue) -> Result<FieldView, MessageError> {
    match v {
        JsonValue::Object(f) => if !keys_within(f@, seq!["name"@, "value"@, "inline"@]) {
            Err(MessageError::InvalidInput("embed fields contain unsupported fields"))
        } else {
            match text_field(f@, "name"@, 256, "embed field name must be 256 characters or fewer") {
                Err(e) => Err(e),
                Ok(None) => Err(MessageError::InvalidInput("embed field name is required")),
                Ok(Some(name)) => match text_field(
                    f@,
                    "value"@,
                    1024,
                    "embed field value must be 1024 characters or fewer",
                ) {
                    Err(e) => Err(e),
                    Ok(None) => Err(MessageError::InvalidInput("embed field value is required")),
                    Ok(Some(value)) => match obj_get(f@, "inline"@) {
                        Some(JsonValue::Bool(b)) => Ok(FieldView { name, value, inline: b }),
                        Some(JsonValue::Null) => Ok(FieldView { name, value, inline: false }),
                        None => Ok(FieldView { name, value, inline: false }),
                        Some(_) => Err(MessageError::InvalidInput("embed field inline must be a boolean")),
                    },
                },
            }
        },
        _ => Err(MessageError::InvalidInput("embed fields must contain objects")),
    }
}

/// The fields of an embed, in order, or the error of the first bad one.
pub open spec fn fields_of(items: Seq<JsonValue>) -> Result<Seq<FieldView>, MessageError>
    decreases items.len(),
{
    if items.len() == 0 {
        Ok(seq![])
    } else {
        match fields_of(items.drop_last()) {
            Err(e) => Err(e),
            Ok(fs) => match embed_field(items.last()) {
                Err(e) => Err(e),
                Ok(f) => Ok(fs.push(f)),
            },
        }
    }
}

pub open spec fn fields_field(entries: Seq<(String, JsonValue)>) -> Result<Option<Seq<FieldView>>, MessageError> {
    match obj_get(entries, "fields"@) {
        None => Ok(None),
        Some(JsonValue::Null) => Ok(None),
        Some(JsonValue::Array(items)) => if items@.len() > 25 {
            Err(MessageError::InvalidInput("embed fields must contain 25 or fewer fields"))
        } else {
            match fields_of(items@) {
                Err(e) => Err(e),
                Ok(fs) => Ok(Some(fs)),
            }
        },
        Some(_) => Err(MessageError::InvalidInput("embed fields must be an array")),
    }
}

fn normalize_embed_field(v: &JsonValue) -> (r: Result<EmbedField, MessageError>)
    ensures
        match r {
            Ok(f) => embed_field(*v) == Ok::<FieldView, MessageError>(f@),
            Err(e) => embed_field(*v) == Err::<FieldView, MessageError>(e),
        },
{
    match v {
        JsonValue::Object(f) => {
            let allowed = vec!["name", "value", "inline"];
            proof {
                reveal_strlit("name");
                reveal_strlit("value");
                reveal_strlit("inline");
                assert(allowed@.map_values(|s: &str| s@) =~= seq!["name"@, "value"@, "inline"@]);
            }
            if !keys_all_within(f, &allowed) {
                return Err(MessageError::InvalidInput("embed fields contain unsupported fields"));
            }
            let name = match optional_embed_text(
                f,
                "name",
                256,
                "embed field name must be 256 characters or fewer",
            )? {
                Some(n) => n,
                None => return Err(MessageError::InvalidInput("embed field name is required")),
            };
            let value = match optional_embed_text(
                f,
                "value",
                1024,
                "embed field value must be 1024 characters or fewer",
            )? {
                Some(v) => v,
                None => return Err(MessageError::InvalidInput("embed field value is required")),
            };
            let inline = match obj_lookup(f, "inline") {
                Some(JsonValue::Bool(b)) => *b,
                Some(JsonValue::Null) => false,
                None => false,
                Some(_) => return Err(MessageError::InvalidInput("embed field inline must be a boolean")),
            };
            Ok(EmbedField { name, value, inline })
        },
        _ => Err(MessageError::InvalidInput("embed fields must contain objects")),
    }
}

pub fn optional_embed_fields(object: &Vec<(String, JsonValue)>) -> (r: Result<Option<Vec<EmbedField>>, MessageError>)
    ensures
        match r {
            Ok(Some(fs)) => fields_field(object@) == Ok::<Option<Seq<FieldView>>, MessageError>(
                Some(fs@.map_values(|f: EmbedField| f@)),
            ),
            Ok(None) => fields_field(object@) == Ok::<Option<Seq<FieldView>>, MessageError>(None),
            Err(e) => fields_field(object@) == Err::<Option<Seq<FieldView>>, MessageError>(e),
        },
{
    match obj_lookup(object, "fields") {
        None => Ok(None),
        Some(JsonValue::Null) => Ok(None),
        Some(JsonValue::Array(items)) => {
            if items.len() > 25 {
                return Err(MessageError::InvalidInput("embed fields must contain 25 or fewer fields"));
            }
            let mut out: Vec<EmbedField> = Vec::new();
            let mut i: usize = 0;
            assert(items@.take(0) =~= Seq::<JsonValue>::empty());
            assert(out@.map_values(|f: EmbedField| f@) =~= Seq::<FieldView>::empty());
            while i < items.len()
                invariant
                    i <= items.len() <= 25,
                    obj_get(object@, "fields"@) == Some(JsonValue::Array(*items)),
                    fields_of(items@.take(i as int)) == Ok::<Seq<FieldView>, MessageError>(
                        out@.map_values(|f: EmbedField| f@),
                    ),
                decreases items.len() - i,
            {
                let ghost t = items@.take(i as int + 1);
                assert(t.drop_last() =~= items@.take(i as int));
                assert(t.last() == items@[i as int]);
                match normalize_embed_field(&items[i]) {
                    Ok(f) => {
                        let ghost prev = out@;
                        out.push(f);
                        assert(out@.map_values(|f: EmbedField| f@) =~= prev.map_values(|f: EmbedField| f@).push(f@));
                    },
                    Err(e) => {
                        proof {
                            lemma_fields_error_sticks(items@, i as int + 1);
                        }
                        return Err(e);
                    },
                }
                i += 1;
            }
            assert(items@.take(items.len() as int) =~= items@);
            Ok(Some(out))
        },
        Some(_) => Err(MessageError::InvalidInput("embed fields must be an array")),
    }
}

proof fn lemma_fields_error_sticks(items: Seq<JsonValue>, i: int)
    requires
        0 <= i <= items.len(),
        fields_of(items.take(i)) is Err,
    ensures
        fields_of(items) == fields_of(items.take(i)),
    decreases items.len() - i,
{
    if i < items.len() {
        assert(items.take(i + 1).drop_last() =~= items.take(i));
        lemma_fields_error_sticks(items, i + 1);
    } else {
        assert(items.take(i) =~= items);
    }
}

/// Number of characters of an optional text.
pub open spec fn opt_len(o: Option<Seq<char>>) -> nat {
    match o {
        Some(s) => s.len(),
        None => 0,
    }
}

/// Characters of the names and values of the fields.
pub open spec fn fields_text_len(fs: Seq<FieldView>) -> nat
    decreases fs.len(),
{
    if fs.len() == 0 {
        0
    } else {
        fields_text_len(fs.drop_last()) + fs.last().name.len() + fs.last().value.len()
    }
}

/// Characters of text an embed carries, which may not exceed 6000.
pub open spec fn embed_text_len(e: EmbedView) -> nat {
    opt_len(e.title) + opt_len(e.description) + (match e.footer {
        Some(f) => f.text.len(),
        None => 0,
    }) + (match e.author {
        Some(a) => a.name.len(),
        None => 0,
    }) + (match e.fields {
        Some(fs) => fields_text_len(fs),
        None => 0,
    })
}

/// An embed carries at least one field besides its type.
pub open spec fn embed_has_content(e: EmbedView) -> bool {
    e.title is Some || e.description is Some || e.url is Some || e.timestamp is Some || e.color is Some
        || e.footer is Some || e.image is Some || e.thumbnail is Some || e.author is Some
        || e.fields is Some
}

/// The `type` of an embed, when given, must be the string `rich`.
pub open spec fn type_ok(entries: Seq<(String, JsonValue)>) -> bool {
    match obj_get(entries, "type"@) {
        None => true,
        Some(JsonValue::String(s)) => trim_seq(s@) == "rich"@,
        Some(_) => false,
    }
}

/// The normalised form of one embed, or the first error in the order the
/// service checks: the object and its keys, then title, type, description,
/// url, timestamp, color, footer, image, thumbnail, author and fields, then
/// that something is there, then the text total.
pub open spec fn normalized_embed(v: JsonValue) -> Result<EmbedView, MessageError> {
    match v {
        JsonValue::Object(o) => {
            let e = o@;
            if exists|k: int| 0 <= k < e.len() && !supported_embed_key((#[trigger] e[k]).0@) {
                Err(MessageError::InvalidInput("message embeds contain unsupported fields"))
            } else {
                match text_field(e, "title"@, 256, "embed title must be 256 characters or fewer") {
                    Err(x) => Err(x),
                    Ok(title) => if !type_ok(e) {
                        Err(MessageError::InvalidInput("embed type must be rich"))
                    } else {
                        match text_field(
                            e,
                            "description"@,
                            4096,
                            "embed description must be 4096 characters or fewer",
                        ) {
                            Err(x) => Err(x),
                            Ok(description) => match url_field(
                                e,
                                "url"@,
                                "embed url must be an HTTP or HTTPS URL up to 2048 characters",
                            ) {
                                Err(x) => Err(x),
                                Ok(url) => match timestamp_field(e) {
                                    Err(x) => Err(x),
                                    Ok(timestamp) => match color_field(e) {
                                        Err(x) => Err(x),
                                        Ok(color) => match footer_field(e) {
                                            Err(x) => Err(x),
                                            Ok(footer) => match media_field(e, "image"@, "embed image"@) {
                                                Err(x) => Err(x),
                                                Ok(image) => match media_field(
                                                    e,
                                                    "thumbnail"@,
                                                    "embed thumbnail"@,
                                                ) {
                                                    Err(x) => Err(x),
                                                    Ok(thumbnail) => match author_field(e) {
                                                        Err(x) => Err(x),
                                                        Ok(author) => match fields_field(e) {
                                                            Err(x) => Err(x),
                                                            Ok(fields) => {
                                                                let view = EmbedView {
                                                                    title,
                                                                    description,
                                                                    url,
                                                                    timestamp,
                                                                    color,
                                                                    footer,
                                                                    image,
                                                                    thumbnail,
                                                                    author,
                                                                    fields,
                                                                };
                                                                if !embed_has_content(view) {
                                                                    Err(
                                                                        MessageError::InvalidInput(
                                                                            "message embeds must include at least one supported field",
                                                                        ),
                                                                    )
                                                                } else if embed_text_len(view) > 6000 {
                                                                    Err(
                                                                        MessageError::InvalidInput(
                                                                            "embed total text must be 6000 characters or fewer",
                                                                        ),
                                                                    )
                                                                } else {
                                                                    Ok(view)
                                                                }
                                                            },
                                                        },
                                                    },
                                                },
                                            },
                                        },
                                    },
                                },
                            },
                        }
                    },
                }
            }
        },
        _ => Err(MessageError::InvalidInput("message embeds must be objects")),
    }
}

fn all_keys_supported(e: &Vec<(String, JsonValue)>) -> (r: bool)
    ensures
        r == !(exists|k: int| 0 <= k < e@.len() && !supported_embed_key((#[trigger] e@[k]).0@)),
{
    let mut i: usize = 0;
    while i < e.len()
        invariant
            i <= e.len(),
            forall|k: int| 0 <= k < i ==> supported_embed_key((#[trigger] e@[k]).0@),
        decreases e.len() - i,
    {
        if !is_supported_embed_key(e[i].0.as_str()) {
            return false;
        }
        i += 1;
    }
    true
}

fn type_is_rich(e: &Vec<(String, JsonValue)>) -> (r: bool)
    ensures
        r == type_ok(e@),
{
    match obj_lookup(e, "type") {
        None => true,
        Some(JsonValue::String(s)) => eq_str(&trimmed(s.as_str()), "rich"),
        Some(_) => false,
    }
}

fn opt_text_len(o: &Option<String>) -> (r: usize)
    ensures
        r == opt_len(opt_chars(*o)),
{
    match o {
        Some(s) => chars_of(s.as_str()).len(),
        None => 0,
    }
}

fn text_total(e: &Embed) -> (r: u64)
    requires
        e@.title matches Some(t) ==> t.len() <= 256,
        e@.description matches Some(t) ==> t.len() <= 4096,
        e@.footer matches Some(f) ==> f.text.len() <= 2048,
        e@.author matches Some(a) ==> a.name.len() <= 256,
        e@.fields matches Some(fs) ==> fs.len() <= 25 && forall|i: int| 0 <= i < fs.len() ==> (#[trigger] fs[i]).name.len() <= 256 && fs[i].value.len() <= 1024,
    ensures
        r == embed_text_len(e@),
{
    let mut total: u64 = opt_text_len(&e.title) as u64 + opt_text_len(&e.description) as u64;
    match &e.footer {
        Some(f) => {
            total = total + chars_of(f.text.as_str()).len() as u64;
        },
        None => {},
    }
    match &e.author {
        Some(a) => {
            total = total + chars_of(a.name.as_str()).len() as u64;
        },
        None => {},
    }
    match &e.fields {
        Some(fs) => {
            let ghost vs = fs@.map_values(|f: EmbedField| f@);
            let mut sum: u64 = 0;
            let mut i: usize = 0;
            while i < fs.len()
                invariant
                    i <= fs.len() <= 25,
                    vs == fs@.map_values(|f: EmbedField| f@),
                    forall|k: int| 0 <= k < vs.len() ==> (#[trigger] vs[k]).name.len() <= 256 && vs[k].value.len() <= 1024,
                    sum == fields_text_len(vs.take(i as int)),
                    sum <= 1280 * i,
                decreases fs.len() - i,
            {
                assert(vs.take(i as int + 1).drop_last() =~= vs.take(i as int));
                assert(vs[i as int] == fs@[i as int]@);
                let n = chars_of(fs[i].name.as_str()).len() as u64;
                let v = chars_of(fs[i].value.as_str()).len() as u64;
                sum = sum + n + v;
                i += 1;
            }
            assert(vs.take(fs.len() as int) =~= vs);
            total = total + sum;
        },
        None => {},
    }
    total
}

/// Normalises one embed.
pub fn normalize_embed(embed: &JsonValue) -> (r: Result<Embed, MessageError>)
    ensures
        match r {
            Ok(e) => normalized_embed(*embed) == Ok::<EmbedView, MessageError>(e@),
            Err(x) => normalized_embed(*embed) == Err::<EmbedView, MessageError>(x),
        },
        r matches Ok(e) ==> timestamp_representable(e@),
{
    let o = match embed {
        JsonValue::Object(o) => o,
        _ => return Err(MessageError::InvalidInput("message embeds must be objects")),
    };
    if !all_keys_supported(o) {
        return Err(MessageError::InvalidInput("message embeds contain unsupported fields"));
    }
    let title = optional_embed_text(o, "title", 256, "embed title must be 256 characters or fewer")?;
    if !type_is_rich(o) {
        return Err(MessageError::InvalidInput("embed type must be rich"));
    }
    let description = optional_embed_text(
        o,
        "description",
        4096,
        "embed description must be 4096 characters or fewer",
    )?;
    let url = optional_embed_url(o, "url", "embed url must be an HTTP or HTTPS URL up to 2048 characters")?;
    let timestamp = optional_embed_timestamp(o)?;
    let color = optional_embed_color(o)?;
    let footer = optional_embed_footer(o)?;
    let image = optional_embed_media(o, "image", "embed image")?;
    let thumbnail = optional_embed_media(o, "thumbnail", "embed thumbnail")?;
    let author = optional_embed_author(o)?;
    let fields = optional_embed_fields(o)?;
    let e = Embed {
        title,
        description,
        url,
        timestamp,
        color,
        footer,
        image,
        thumbnail,
        author,
        fields,
    };
    proof {
        reveal_strlit("embed image");
        reveal_strlit("embed thumbnail");
        if let Some(fs) = e@.fields {
            match obj_get(o@, "fields"@) {
                Some(JsonValue::Array(items)) => {
                    lemma_fields_bounded(items@);
                },
                _ => {},
            }
        }
    }
    let has_content = e.title.is_some() || e.description.is_some() || e.url.is_some()
        || e.timestamp.is_some() || e.color.is_some() || e.footer.is_some() || e.image.is_some()
        || e.thumbnail.is_some() || e.author.is_some() || e.fields.is_some();
    if !has_content {
        return Err(
            MessageError::InvalidInput("message embeds must include at least one supported field"),
        );
    }
    if text_total(&e) > 6000 {
        return Err(MessageError::InvalidInput("embed total text must be 6000 characters or fewer"));
    }
    Ok(e)
}

proof fn lemma_fields_bounded(items: Seq<JsonValue>)
    ensures
        fields_of(items) matches Ok(fs) ==> fs.len() == items.len() && forall|i: int|
            0 <= i < fs.len() ==> (#[trigger] fs[i]).name.len() <= 256 && fs[i].value.len() <= 1024,
    decreases items.len(),
{
    if items.len() > 0 {
        lemma_fields_bounded(items.drop_last());
    }
}

/// The normalised embeds of a message, in order, or the first error; at
/// most ten.
pub open spec fn normalized_embeds(embeds: Seq<JsonValue>) -> Result<Seq<EmbedView>, MessageError> {
    if embeds.len() > 10 {
        Err(MessageError::InvalidInput("message embeds must contain 10 or fewer embeds"))
    } else {
        embeds_of(embeds)
    }
}

pub open spec fn embeds_of(embeds: Seq<JsonValue>) -> Result<Seq<EmbedView>, MessageError>
    decreases embeds.len(),
{
    if embeds.len() == 0 {
        Ok(seq![])
    } else {
        match embeds_of(embeds.drop_last()) {
            Err(e) => Err(e),
            Ok(es) => match normalized_embed(embeds.last()) {
                Err(e) => Err(e),
                Ok(x) => Ok(es.push(x)),
            },
        }
    }
}

proof fn lemma_embeds_error_sticks(items: Seq<JsonValue>, i: int)
    requires
        0 <= i <= items.len(),
        embeds_of(items.take(i)) is Err,
    ensures
        embeds_of(items) == embeds_of(items.take(i)),
    decreases items.len() - i,
{
    if i < items.len() {
        assert(items.take(i + 1).drop_last() =~= items.take(i));
        lemma_embeds_error_sticks(items, i + 1);
    } else {
        assert(items.take(i) =~= items);
    }
}

pub fn normalize_embeds(embeds: &Vec<JsonValue>) -> (r: Result<Vec<Embed>, MessageError>)
    ensures
        match r {
            Ok(es) => normalized_embeds(embeds@) == Ok::<Seq<EmbedView>, MessageError>(es@.map_values(|e: Embed| e@)),
            Err(x) => normalized_embeds(embeds@) == Err::<Seq<EmbedView>, MessageError>(x),
        },
{
    if embeds.len() > 10 {
        return Err(MessageError::InvalidInput("message embeds must contain 10 or fewer embeds"));
    }
    let mut out: Vec<Embed> = Vec::new();
    let mut i: usize = 0;
    assert(embeds@.take(0) =~= Seq::<JsonValue>::empty());
    assert(out@.map_values(|e: Embed| e@) =~= Seq::<EmbedView>::empty());
    while i < embeds.len()
        invariant
            i <= embeds.len() <= 10,
            embeds_of(embeds@.take(i as int)) == Ok::<Seq<EmbedView>, MessageError>(out@.map_values(|e: Embed| e@)),
        decreases embeds.len() - i,
    {
        let ghost t = embeds@.take(i as int + 1);
        assert(t.drop_last() =~= embeds@.take(i as int));
        assert(t.last() == embeds@[i as int]);
        match normalize_embed(&embeds[i]) {
            Ok(e) => {
                let ghost prev = out@;
                out.push(e);
                assert(out@.map_values(|e: Embed| e@) =~= prev.map_values(|e: Embed| e@).push(e@));
            },
            Err(x) => {
                proof {
                    lemma_embeds_error_sticks(embeds@, i as int + 1);
                }
                return Err(x);
            },
        }
        i += 1;
    }
    assert(embeds@.take(embeds.len() as int) =~= embeds@);
    Ok(out)
}

/// The timestamp of an embed, if any, is an instant chrono represents.
pub open spec fn timestamp_representable(e: EmbedView) -> bool {
    e.timestamp matches Some(t) ==> chrono_representable(t.0, t.1)
}

/// `v` is the JSON string `s`.
pub open spec fn json_str_is(v: JsonValue, s: Seq<char>) -> bool {
    v matches JsonValue::String(x) && x@ == s
}

/// Each entry has the expected key and a value the expected test accepts,
/// in order.
pub open spec fn entries_match(es: Seq<(String, JsonValue)>, ex: Seq<(Seq<char>, spec_fn(JsonValue) -> bool)>) -> bool {
    &&& es.len() == ex.len()
    &&& forall|i: int| 0 <= i < es.len() ==> (#[trigger] es[i]).0@ == ex[i].0 && (ex[i].1)(es[i].1)
}

/// One expected entry when `present`, none otherwise.
pub open spec fn opt_entry(key: Seq<char>, present: bool, test: spec_fn(JsonValue) -> bool) -> Seq<(Seq<char>, spec_fn(JsonValue) -> bool)> {
    if present {
        seq![(key, test)]
    } else {
        seq![]
    }
}

/// The JSON string test for an optional text.
pub open spec fn str_test(s: Option<Seq<char>>) -> spec_fn(JsonValue) -> bool {
    |v: JsonValue| s matches Some(x) && json_str_is(v, x)
}

/// The JSON object of a footer: `icon_url` when present, then `text` (keys
/// in sorted order, as `serde_json`'s map keeps them).
pub open spec fn footer_json_is(v: JsonValue, f: FooterView) -> bool {
    v matches JsonValue::Object(es) && entries_match(
        es@,
        opt_entry("icon_url"@, f.icon_url is Some, str_test(f.icon_url)) + seq![("text"@, str_test(Some(f.text)))],
    )
}

/// The JSON object of an image or thumbnail: its `url`.
pub open spec fn media_json_is(v: JsonValue, url: Seq<char>) -> bool {
    v matches JsonValue::Object(es) && entries_match(es@, seq![("url"@, str_test(Some(url)))])
}

/// The JSON object of an author: `icon_url`, `name`, `url`, each present
/// as in the author.
pub open spec fn author_json_is(v: JsonValue, a: AuthorView) -> bool {
    v matches JsonValue::Object(es) && entries_match(
        es@,
        opt_entry("icon_url"@, a.icon_url is Some, str_test(a.icon_url)) + seq![("name"@, str_test(Some(a.name)))]
            + opt_entry("url"@, a.url is Some, str_test(a.url)),
    )
}

/// The JSON object of a field: `inline`, `name`, `value`.
pub open spec fn field_json_is(v: JsonValue, f: FieldView) -> bool {
    v matches JsonValue::Object(es) && entries_match(
        es@,
        seq![
            ("inline"@, |x: JsonValue| x == JsonValue::Bool(f.inline)),
            ("name"@, str_test(Some(f.name))),
            ("value"@, str_test(Some(f.value))),
        ],
    )
}

/// The JSON array of fields, in order.
pub open spec fn fields_json_is(v: JsonValue, fs: Seq<FieldView>) -> bool {
    v matches JsonValue::Array(xs) && xs@.len() == fs.len() && forall|i: int|
        0 <= i < fs.len() ==> field_json_is(#[trigger] xs@[i], fs[i])
}

/// The expected entries of an embed's JSON object, in sorted key order:
/// author, color, description, fields, footer, image, thumbnail, timestamp
/// (RFC 3339 in UTC with milliseconds), title, `type` (always `rich`), url.
pub open spec fn embed_entries(e: EmbedView) -> Seq<(Seq<char>, spec_fn(JsonValue) -> bool)> {
    opt_entry("author"@, e.author is Some, |v: JsonValue| e.author matches Some(a) && author_json_is(v, a))
        + opt_entry("color"@, e.color is Some, |v: JsonValue| e.color matches Some(c) && v == JsonValue::Number(JsonNumber::Unsigned(c)))
        + opt_entry("description"@, e.description is Some, str_test(e.description))
        + opt_entry("fields"@, e.fields is Some, |v: JsonValue| e.fields matches Some(fs) && fields_json_is(v, fs))
        + opt_entry("footer"@, e.footer is Some, |v: JsonValue| e.footer matches Some(f) && footer_json_is(v, f))
        + opt_entry("image"@, e.image is Some, |v: JsonValue| e.image matches Some(u) && media_json_is(v, u))
        + opt_entry("thumbnail"@, e.thumbnail is Some, |v: JsonValue| e.thumbnail matches Some(u) && media_json_is(v, u))
        + opt_entry("timestamp"@, e.timestamp is Some, |v: JsonValue| e.timestamp matches Some(t) && json_str_is(v, rfc3339_text(t.0, t.1, true)))
        + opt_entry("title"@, e.title is Some, str_test(e.title))
        + seq![("type"@, str_test(Some("rich"@)))]
        + opt_entry("url"@, e.url is Some, str_test(e.url))
}

/// `v` is the JSON form of the embed `e`.
pub open spec fn embed_json_is(v: JsonValue, e: EmbedView) -> bool {
    v matches JsonValue::Object(es) && entries_match(es@, embed_entries(e))
}

fn json_string(s: &String) -> (r: JsonValue)
    ensures
        json_str_is(r, s@),
{
    JsonValue::String(s.clone())
}

fn push_entry(
    es: &mut Vec<(String, JsonValue)>,
    key: &str,
    v: JsonValue,
    Ghost(ex): Ghost<Seq<(Seq<char>, spec_fn(JsonValue) -> bool)>>,
    Ghost(test): Ghost<spec_fn(JsonValue) -> bool>,
)
    requires
        entries_match(old(es)@, ex),
        test(v),
    ensures
        entries_match(final(es)@, ex + seq![(key@, test)]),
{
    let k = string_of(&chars_of(key));
    es.push((k, v));
    let ghost ex2 = ex + seq![(key@, test)];
    assert forall|i: int| 0 <= i < es@.len() implies (#[trigger] es@[i]).0@ == ex2[i].0 && (ex2[i].1)(es@[i].1) by {
        if i < old(es)@.len() {
            assert(es@[i] == old(es)@[i]);
            assert(ex2[i] == ex[i]);
        }
    }
}

fn footer_json(f: &EmbedFooter) -> (r: JsonValue)
    ensures
        footer_json_is(r, f@),
{
    let mut es: Vec<(String, JsonValue)> = Vec::new();
    let ghost ex0 = Seq::<(Seq<char>, spec_fn(JsonValue) -> bool)>::empty();
    let ghost t1 = str_test(opt_chars(f.icon_url));
    let ghost ex1 = opt_entry("icon_url"@, f.icon_url is Some, t1);
    if let Some(u) = &f.icon_url {
        push_entry(&mut es, "icon_url", json_string(u), Ghost(ex0), Ghost(t1));
        assert(ex0 + seq![("icon_url"@, t1)] =~= ex1);
    } else {
        assert(ex1 =~= ex0);
    }
    let ghost t2 = str_test(Some(f.text@));
    push_entry(&mut es, "text", json_string(&f.text), Ghost(ex1), Ghost(t2));
    JsonValue::Object(es)
}

fn media_json(url: &String) -> (r: JsonValue)
    ensures
        media_json_is(r, url@),
{
    let mut es: Vec<(String, JsonValue)> = Vec::new();
    let ghost t = str_test(Some(url@));
    push_entry(&mut es, "url", json_string(url), Ghost(Seq::empty()), Ghost(t));
    assert(Seq::<(Seq<char>, spec_fn(JsonValue) -> bool)>::empty() + seq![("url"@, t)] =~= seq![("url"@, t)]);
    JsonValue::Object(es)
}

fn author_json(a: &EmbedAuthor) -> (r: JsonValue)
    ensures
        author_json_is(r, a@),
{
    let mut es: Vec<(String, JsonValue)> = Vec::new();
    let ghost ex0 = Seq::<(Seq<char>, spec_fn(JsonValue) -> bool)>::empty();
    let ghost t1 = str_test(opt_chars(a.icon_url));
    let ghost ex1 = opt_entry("icon_url"@, a.icon_url is Some, t1);
    if let Some(u) = &a.icon_url {
        push_entry(&mut es, "icon_url", json_string(u), Ghost(ex0), Ghost(t1));
        assert(ex0 + seq![("icon_url"@, t1)] =~= ex1);
    } else {
        assert(ex1 =~= ex0);
    }
    let ghost t2 = str_test(Some(a.name@));
    push_entry(&mut es, "name", json_string(&a.name), Ghost(ex1), Ghost(t2));
    let ghost ex2 = ex1 + seq![("name"@, t2)];
    let ghost t3 = str_test(opt_chars(a.url));
    if let Some(u) = &a.url {
        push_entry(&mut es, "url", json_string(u), Ghost(ex2), Ghost(t3));
    } else {
        assert(ex2 + opt_entry("url"@, false, t3) =~= ex2);
    }
    JsonValue::Object(es)
}

fn field_json(f: &EmbedField) -> (r: JsonValue)
    ensures
        field_json_is(r, f@),
{
    let mut es: Vec<(String, JsonValue)> = Vec::new();
    let ghost inline = f.inline;
    let ghost t1 = |x: JsonValue| x == JsonValue::Bool(inline);
    let ghost t2 = str_test(Some(f.name@));
    let ghost t3 = str_test(Some(f.value@));
    push_entry(&mut es, "inline", JsonValue::Bool(f.inline), Ghost(Seq::empty()), Ghost(t1));
    let ghost ex1 = Seq::<(Seq<char>, spec_fn(JsonValue) -> bool)>::empty() + seq![("inline"@, t1)];
    push_entry(&mut es, "name", json_string(&f.name), Ghost(ex1), Ghost(t2));
    let ghost ex2 = ex1 + seq![("name"@, t2)];
    push_entry(&mut es, "value", json_string(&f.value), Ghost(ex2), Ghost(t3));
    assert(ex2 + seq![("value"@, t3)] =~= seq![("inline"@, t1), ("name"@, t2), ("value"@, t3)]);
    JsonValue::Object(es)
}

fn fields_json(fs: &Vec<EmbedField>) -> (r: JsonValue)
    ensures
        fields_json_is(r, fs@.map_values(|f: EmbedField| f@)),
{
    let mut xs: Vec<JsonValue> = Vec::new();
    let mut i: usize = 0;
    while i < fs.len()
        invariant
            i <= fs.len(),
            xs@.len() == i,
            forall|k: int| 0 <= k < i ==> field_json_is(#[trigger] xs@[k], fs@[k]@),
        decreases fs.len() - i,
    {
        xs.push(field_json(&fs[i]));
        i += 1;
    }
    JsonValue::Array(xs)
}

/// The JSON form of a normalised embed, as it is stored and returned: its
/// fields under their keys in sorted order, `type` set to `rich`, and the
/// timestamp as RFC 3339 text in UTC with milliseconds.
pub fn embed_json(e: &Embed) -> (r: JsonValue)
    requires
        timestamp_representable(e@),
    ensures
        embed_json_is(r, e@),
{
    let ghost ev = e@;
    let ghost ex = embed_entries(ev);
    let mut es: Vec<(String, JsonValue)> = Vec::new();
    let ghost mut acc = Seq::<(Seq<char>, spec_fn(JsonValue) -> bool)>::empty();
    // author
    let ghost t = |v: JsonValue| ev.author matches Some(a) && author_json_is(v, a);
    if let Some(a) = &e.author {
        push_entry(&mut es, "author", author_json(a), Ghost(acc), Ghost(t));
    }
    proof { acc = acc + opt_entry("author"@, ev.author is Some, t); }
    // color
    let ghost t = |v: JsonValue| ev.color matches Some(c) && v == JsonValue::Number(JsonNumber::Unsigned(c));
    if let Some(c) = e.color {
        push_entry(&mut es, "color", JsonValue::Number(JsonNumber::Unsigned(c)), Ghost(acc), Ghost(t));
    }
    proof { acc = acc + opt_entry("color"@, ev.color is Some, t); }
    // description
    let ghost t = str_test(ev.description);
    if let Some(d) = &e.description {
        push_entry(&mut es, "description", json_string(d), Ghost(acc), Ghost(t));
    }
    proof { acc = acc + opt_entry("description"@, ev.description is Some, t); }
    // fields
    let ghost t = |v: JsonValue| ev.fields matches Some(fs) && fields_json_is(v, fs);
    if let Some(fs) = &e.fields {
        push_entry(&mut es, "fields", fields_json(fs), Ghost(acc), Ghost(t));
    }
    proof { acc = acc + opt_entry("fields"@, ev.fields is Some, t); }
    // footer
    let ghost t = |v: JsonValue| ev.footer matches Some(f) && footer_json_is(v, f);
    if let Some(f) = &e.footer {
        push_entry(&mut es, "footer", footer_json(f), Ghost(acc), Ghost(t));
    }
    proof { acc = acc + opt_entry("footer"@, ev.footer is Some, t); }
    // image
    let ghost t = |v: JsonValue| ev.image matches Some(u) && media_json_is(v, u);
    if let Some(u) = &e.image {
        push_entry(&mut es, "image", media_json(u), Ghost(acc), Ghost(t));
    }
    proof { acc = acc + opt_entry("image"@, ev.image is Some, t); }
    // thumbnail
    let ghost t = |v: JsonValue| ev.thumbnail matches Some(u) && media_json_is(v, u);
    if let Some(u) = &e.thumbnail {
        push_entry(&mut es, "thumbnail", media_json(u), Ghost(acc), Ghost(t));
    }
    proof { acc = acc + opt_entry("thumbnail"@, ev.thumbnail is Some, t); }
    // timestamp
    let ghost t = |v: JsonValue| ev.timestamp matches Some(ts) && json_str_is(v, rfc3339_text(ts.0, ts.1, true));
    if let Some(ts) = e.timestamp {
        let text = match format_rfc3339(ts.0, ts.1, true) {
            Some(x) => x,
            None => String::new(),
        };
        push_entry(&mut es, "timestamp", JsonValue::String(text), Ghost(acc), Ghost(t));
    }
    proof { acc = acc + opt_entry("timestamp"@, ev.timestamp is Some, t); }
    // title
    let ghost t = str_test(ev.title);
    if let Some(x) = &e.title {
        push_entry(&mut es, "title", json_string(x), Ghost(acc), Ghost(t));
    }
    proof { acc = acc + opt_entry("title"@, ev.title is Some, t); }
    // type
    let ghost t = str_test(Some("rich"@));
    let rich = string_of(&chars_of("rich"));
    push_entry(&mut es, "type", JsonValue::String(rich), Ghost(acc), Ghost(t));
    proof { acc = acc + seq![("type"@, t)]; }
    // url
    let ghost t = str_test(ev.url);
    if let Some(u) = &e.url {
        push_entry(&mut es, "url", json_string(u), Ghost(acc), Ghost(t));
    }
    proof {
        acc = acc + opt_entry("url"@, ev.url is Some, t);
        assert(acc =~= ex);
    }
    JsonValue::Object(es)
}

/// The stored JSON form of one embed (`normalize_embed` as the service
/// uses it): the embed normalised, then written as JSON.
pub fn normalize_embed_json(embed: &JsonValue) -> (r: Result<JsonValue, MessageError>)
    ensures
        match normalized_embed(*embed) {
            Ok(e) => r matches Ok(v) && embed_json_is(v, e),
            Err(x) => r == Err::<JsonValue, MessageError>(x),
        },
{
    let e = normalize_embed(embed)?;
    Ok(embed_json(&e))
}

/// At most five components, each an object.
pub open spec fn valid_components(components: Seq<JsonValue>) -> Result<(), MessageError> {
    if components.len() > 5 {
        Err(MessageError::InvalidInput("message components must contain 5 or fewer action rows"))
    } else if exists|i: int| 0 <= i < components.len() && !((#[trigger] components[i]) is Object) {
        Err(MessageError::InvalidInput("message components must be objects"))
    } else {
        Ok(())
    }
}

/// The components, unchanged, when they are valid.
pub fn normalize_components(components: Vec<JsonValue>) -> (r: Result<Vec<JsonValue>, MessageError>)
    ensures
        match r {
            Ok(c) => valid_components(components@) == Ok::<(), MessageError>(()) && c@ == components@,
            Err(e) => valid_components(components@) == Err::<(), MessageError>(e),
        },
{
    if components.len() > 5 {
        return Err(MessageError::InvalidInput("message components must contain 5 or fewer action rows"));
    }
    let mut i: usize = 0;
    while i < components.len()
        invariant
            i <= components.len() <= 5,
            forall|k: int| 0 <= k < i ==> (#[trigger] components@[k]) is Object,
        decreases components.len() - i,
    {
        match &components[i] {
            JsonValue::Object(_) => {},
            _ => {
                assert(!(components@[i as int] is Object));
                return Err(MessageError::InvalidInput("message components must be objects"));
            },
        }
        i += 1;
    }
    Ok(components)
}

/// What a webhook's display name override comes to.
pub open spec fn username_outcome(username: Option<String>) -> Result<Option<Seq<char>>, MessageError> {
    match username {
        None => Ok(None),
        Some(u) => if trim_seq(u@).len() == 0 {
            Ok(None)
        } else if utf8_len(trim_seq(u@)) > 80 {
            Err(MessageError::InvalidInput("webhook username must be 80 characters or fewer"))
        } else {
            Ok(Some(trim_seq(u@)))
        },
    }
}

/// What a webhook's avatar override comes to.
pub open spec fn avatar_outcome(avatar_url: Option<String>) -> Result<Option<Seq<char>>, MessageError> {
    match avatar_url {
        None => Ok(None),
        Some(u) => if trim_seq(u@).len() == 0 {
            Ok(None)
        } else if !http_url(trim_seq(u@)) {
            Err(MessageError::InvalidInput("webhook avatar_url must be an HTTP or HTTPS URL up to 2048 characters"))
        } else {
            Ok(Some(trim_seq(u@)))
        },
    }
}

pub open spec fn opt_seq(o: Option<String>) -> Option<Seq<char>> {
    match o {
        Some(s) => Some(s@),
        None => None,
    }
}

/// A webhook's display name override: trimmed, blank is none, at most 80
/// bytes.
pub fn normalize_webhook_username(username: Option<String>) -> (r: Result<Option<String>, MessageError>)
    ensures
        match username {
            None => r == Ok::<Option<String>, MessageError>(None),
            Some(u) => {
                let t = trim_seq(u@);
                if t.len() == 0 {
                    r == Ok::<Option<String>, MessageError>(None)
                } else if utf8_len(t) > 80 {
                    r == Err::<Option<String>, MessageError>(MessageError::InvalidInput("webhook username must be 80 characters or fewer"))
                } else {
                    r matches Ok(Some(s)) && s@ == t
                }
            },
        },
{
    let username = match username {
        None => return Ok(None),
        Some(u) => u,
    };
    let t = trimmed(username.as_str());
    if t.len() == 0 {
        return Ok(None);
    }
    if !utf8_len_at_most(&t, 80) {
        return Err(MessageError::InvalidInput("webhook username must be 80 characters or fewer"));
    }
    Ok(Some(string_of(&t)))
}

/// A webhook's avatar override: trimmed, blank is none, else an HTTP(S) URL.
pub fn normalize_webhook_avatar_url(avatar_url: Option<String>) -> (r: Result<Option<String>, MessageError>)
    ensures
        match avatar_url {
            None => r == Ok::<Option<String>, MessageError>(None),
            Some(u) => {
                let t = trim_seq(u@);
                if t.len() == 0 {
                    r == Ok::<Option<String>, MessageError>(None)
                } else if !http_url(t) {
                    r == Err::<Option<String>, MessageError>(MessageError::InvalidInput(
                        "webhook avatar_url must be an HTTP or HTTPS URL up to 2048 characters",
                    ))
                } else {
                    r matches Ok(Some(s)) && s@ == t
                }
            },
        },
{
    let avatar_url = match avatar_url {
        None => return Ok(None),
        Some(u) => u,
    };
    let t = trimmed(avatar_url.as_str());
    if t.len() == 0 {
        return Ok(None);
    }
    if !is_http_url(&t) {
        return Err(
            MessageError::InvalidInput(
                "webhook avatar_url must be an HTTP or HTTPS URL up to 2048 characters",
            ),
        );
    }
    Ok(Some(string_of(&t)))
}

/// The ids in order of first appearance, each once.
pub fn normalize_mention_ids(ids: Vec<u128>) -> (r: Vec<u128>)
    ensures
        r@ == ids@.remove_duplicates(seq![]),
{
    let mut seen: Vec<u128> = Vec::new();
    let mut i: usize = 0;
    assert(ids@.skip(0) =~= ids@);
    assert(seen@ =~= Seq::<u128>::empty());
    while i < ids.len()
        invariant
            i <= ids.len(),
            ids@.remove_duplicates(seq![]) == ids@.skip(i as int).remove_duplicates(seen@),
        decreases ids.len() - i,
    {
        let ghost rest = ids@.skip(i as int);
        assert(rest[0] == ids@[i as int]);
        assert(rest.skip(1) =~= ids@.skip(i as int + 1));
        let id = ids[i];
        let mut found = false;
        let mut j: usize = 0;
        while j < seen.len()
            invariant
                j <= seen.len(),
                found == (exists|k: int| 0 <= k < j && seen@[k] == id),
            decreases seen.len() - j,
        {
            if seen[j] == id {
                found = true;
            }
            j += 1;
        }
        proof {
            if found {
                let k = choose|k: int| 0 <= k < j && seen@[k] == id;
                assert(seen@.contains(id));
            } else {
                assert(!seen@.contains(id));
            }
        }
        if !found {
            let ghost before = seen@;
            seen.push(id);
            assert(seen@ =~= before + seq![id]);
        }
        i += 1;
    }
    assert(ids@.skip(ids.len() as int).len() == 0);
    seen
}

/// `Ok` when the store found the message, else `NotFound` (`get`).
pub fn found_message<T>(found: Option<T>) -> (r: Result<T, MessageError>)
    ensures
        match found {
            Some(m) => r == Ok::<T, MessageError>(m),
            None => r == Err::<T, MessageError>(MessageError::NotFound),
        },
{
    match found {
        Some(m) => Ok(m),
        None => Err(MessageError::NotFound),
    }
}

#[derive(Debug)]
pub struct Message {
    pub id: u128,
    pub organization_id: u128,
    pub space_id: Option<u128>,
    pub channel_id: u128,
    pub author_user_id: u128,
    pub content: String,
    pub content_format: String,
    pub embeds: Vec<Embed>,
    pub components: Vec<JsonValue>,
    pub webhook_username: Option<String>,
    pub webhook_avatar_url: Option<String>,
    pub mention_user_ids: Vec<u128>,
    pub mention_role_ids: Vec<u128>,
    pub mention_everyone: bool,
    pub reply_to_message_id: Option<u128>,
    pub edited_at: Option<String>,
    pub deleted_at: Option<String>,
    pub created_at: String,
}

#[derive(Debug)]
pub struct CreateMessageInput {
    pub organization_id: u128,
    pub space_id: Option<u128>,
    pub channel_id: u128,
    pub author_user_id: u128,
    pub content: String,
    pub allow_empty_content: bool,
    pub embeds: Vec<JsonValue>,
    pub components: Vec<JsonValue>,
    pub webhook_username: Option<String>,
    pub webhook_avatar_url: Option<String>,
    pub mention_user_ids: Vec<u128>,
    pub mention_role_ids: Vec<u128>,
    pub mention_everyone: bool,
    pub reply_to_message_id: Option<u128>,
}

/// A new plain-text message (`create_with_embeds` before the store call),
/// stamped `created_at`. Embeds are checked first, then components, content
/// and the webhook overrides; mentions lose their repeats.
pub fn new_message(id: u128, input: CreateMessageInput, created_at: String) -> (r: Result<Message, MessageError>)
    ensures
        match r {
            Ok(m) => {
                &&& normalized_embeds(input.embeds@) == Ok::<Seq<EmbedView>, MessageError>(m.embeds@.map_values(|e: Embed| e@))
                &&& valid_components(input.components@) == Ok::<(), MessageError>(())
                &&& m.components@ == input.components@
                &&& valid_content(input.content@, input.allow_empty_content)
                &&& m.content@ == trim_seq(input.content@)
                &&& m.content_format@ == "plain"@
                &&& m.id == id && m.organization_id == input.organization_id
                &&& m.space_id == input.space_id && m.channel_id == input.channel_id
                &&& m.author_user_id == input.author_user_id
                &&& m.mention_user_ids@ == input.mention_user_ids@.remove_duplicates(seq![])
                &&& m.mention_role_ids@ == input.mention_role_ids@.remove_duplicates(seq![])
                &&& m.mention_everyone == input.mention_everyone
                &&& m.reply_to_message_id == input.reply_to_message_id
                &&& m.edited_at is None && m.deleted_at is None
                &&& m.created_at == created_at
                &&& username_outcome(input.webhook_username) == Ok::<Option<Seq<char>>, MessageError>(opt_seq(m.webhook_username))
                &&& avatar_outcome(input.webhook_avatar_url) == Ok::<Option<Seq<char>>, MessageError>(opt_seq(m.webhook_avatar_url))
            },
            Err(e) => {
                ||| normalized_embeds(input.embeds@) == Err::<Seq<EmbedView>, MessageError>(e)
                ||| normalized_embeds(input.embeds@) is Ok && valid_components(input.components@) == Err::<(), MessageError>(e)
                ||| normalized_embeds(input.embeds@) is Ok && valid_components(input.components@) is Ok
                    && !valid_content(input.content@, input.allow_empty_content) && e == MessageError::InvalidInput(
                    "message content must be between 1 and 4000 characters unless attachments are present",
                )
                ||| normalized_embeds(input.embeds@) is Ok && valid_components(input.components@) is Ok
                    && valid_content(input.content@, input.allow_empty_content)
                    && username_outcome(input.webhook_username) == Err::<Option<Seq<char>>, MessageError>(e)
                ||| normalized_embeds(input.embeds@) is Ok && valid_components(input.components@) is Ok
                    && valid_content(input.content@, input.allow_empty_content) && username_outcome(input.webhook_username) is Ok
                    && avatar_outcome(input.webhook_avatar_url) == Err::<Option<Seq<char>>, MessageError>(e)
            },
        },
{
    let embeds = normalize_embeds(&input.embeds)?;
    let components = normalize_components(input.components)?;
    let content = normalize_content(input.content, input.allow_empty_content)?;
    let webhook_username = normalize_webhook_username(input.webhook_username)?;
    let webhook_avatar_url = normalize_webhook_avatar_url(input.webhook_avatar_url)?;
    Ok(Message {
        id,
        organization_id: input.organization_id,
        space_id: input.space_id,
        channel_id: input.channel_id,
        author_user_id: input.author_user_id,
        content,
        content_format: string_of(&chars_of("plain")),
        embeds,
        components,
        webhook_username,
        webhook_avatar_url,
        mention_user_ids: normalize_mention_ids(input.mention_user_ids),
        mention_role_ids: normalize_mention_ids(input.mention_role_ids),
        mention_everyone: input.mention_everyone,
        reply_to_message_id: input.reply_to_message_id,
        edited_at: None,
        deleted_at: None,
        created_at,
    })
}

/// The message after an edit (`update_with_mentions` before the store
/// call): new content (never empty), mentions, and components when given;
/// marked as edited.
pub fn edit_message(
    message: Message,
    content: String,
    mention_user_ids: Vec<u128>,
    mention_role_ids: Vec<u128>,
    mention_everyone: bool,
    components: Option<Vec<JsonValue>>,
) -> (r: Result<Message, MessageError>)
    ensures
        match r {
            Ok(m) => {
                &&& valid_content(content@, false) && m.content@ == trim_seq(content@)
                &&& m.mention_user_ids@ == mention_user_ids@.remove_duplicates(seq![])
                &&& m.mention_role_ids@ == mention_role_ids@.remove_duplicates(seq![])
                &&& m.mention_everyone == mention_everyone
                &&& match components {
                    Some(c) => valid_components(c@) is Ok && m.components@ == c@,
                    None => m.components == message.components,
                }
                &&& m.edited_at matches Some(t) && t@ == "now"@
                &&& m.id == message.id && m.channel_id == message.channel_id
                &&& m.author_user_id == message.author_user_id && m.embeds == message.embeds
                &&& m.created_at == message.created_at && m.deleted_at == message.deleted_at
            },
            Err(e) => {
                ||| !valid_content(content@, false) && e == MessageError::InvalidInput(
                    "message content must be between 1 and 4000 characters unless attachments are present",
                )
                ||| valid_content(content@, false) && components is Some && valid_components(components->0@)
                    == Err::<(), MessageError>(e)
            },
        },
{
    let mut message = message;
    message.content = normalize_content(content, false)?;
    message.mention_user_ids = normalize_mention_ids(mention_user_ids);
    message.mention_role_ids = normalize_mention_ids(mention_role_ids);
    message.mention_everyone = mention_everyone;
    if let Some(components) = components {
        message.components = normalize_components(components)?;
    }
    message.edited_at = Some(string_of(&chars_of("now")));
    Ok(message)
}

/// The message marked deleted at `deleted_at` (`delete` before the store
/// call).
pub fn mark_deleted(message: Message, deleted_at: String) -> (r: Message)
    ensures
        r.deleted_at == Some(deleted_at),
        r.id == message.id && r.content == message.content && r.created_at == message.created_at,
{
    let mut message = message;
    message.deleted_at = Some(deleted_at);
    message
}

/// The inline flag a field object asks for: its `"inline"` boolean, or
/// `false` when the entry is absent or null.
pub open spec fn inline_requested(v: JsonValue, inline: bool) -> bool {
    match v {
        JsonValue::Object(o) => match obj_get(o@, "inline"@) {
            Some(JsonValue::Bool(b)) => inline == b,
            Some(JsonValue::Null) => !inline,
            None => !inline,
            Some(_) => false,
        },
        _ => false,
    }
}

proof fn lemma_fields_of(items: Seq<JsonValue>)
    ensures
        fields_of(items) matches Ok(fs) ==> fs.len() == items.len() && forall|i: int|
            0 <= i < items.len() ==> embed_field(#[trigger] items[i]) == Ok::<FieldView, MessageError>(fs[i]),
    decreases items.len(),
{
    if items.len() > 0 {
        let t = items.drop_last();
        lemma_fields_of(t);
        if let Ok(fs) = fields_of(items) {
            assert forall|i: int| 0 <= i < items.len() implies embed_field(#[trigger] items[i])
                == Ok::<FieldView, MessageError>(fs[i]) by {
                if i < t.len() {
                    assert(t[i] == items[i]);
                }
            }
        }
    }
}

/// An embed keeps each field's inline flag as sent: whenever an embed's
/// `fields` normalise, they are one per entry of the `fields` array, in
/// order, and the `i`-th is inline exactly when the `i`-th object's
/// `"inline"` entry is `true` (absent or null meaning not inline).
pub proof fn law_fields_keep_inline(entries: Seq<(String, JsonValue)>)
    ensures
        fields_field(entries) matches Ok(Some(fs)) ==> (obj_get(entries, "fields"@) matches Some(
            JsonValue::Array(items),
        ) && fs.len() == items@.len() && forall|i: int|
            0 <= i < fs.len() ==> inline_requested(items@[i], #[trigger] fs[i].inline)),
{
    if let Ok(Some(fs)) = fields_field(entries) {
        if let Some(JsonValue::Array(items)) = obj_get(entries, "fields"@) {
            lemma_fields_of(items@);
            assert forall|i: int| 0 <= i < fs.len() implies inline_requested(items@[i], #[trigger] fs[i].inline) by {
                assert(embed_field(items@[i]) == Ok::<FieldView, MessageError>(fs[i]));
            }
        }
    }
}

/// A normalised embed keeps the inline flag of each field as sent: its
/// fields are one per entry of the embed's `fields` array, in order, and
/// the `i`-th is inline exactly when the `i`-th object's `"inline"` entry
/// is `true` (absent or null meaning not inline).
pub proof fn law_embed_keeps_field_inline(embed: JsonValue)
    ensures
        normalized_embed(embed) matches Ok(view) ==> (view.fields matches Some(fs) ==> (embed matches JsonValue::Object(
            o,
        ) && obj_get(o@, "fields"@) matches Some(JsonValue::Array(items)) && fs.len() == items@.len() && forall|i: int|
            0 <= i < fs.len() ==> inline_requested(items@[i], #[trigger] fs[i].inline))),
{
    if let JsonValue::Object(o) = embed {
        law_fields_keep_inline(o@);
    }
}

} // verus!
