//! Text channels of a space: names, slugs, topics and updates.
use vstd::prelude::*;

use crate::text::{collapse_ws, collapsed, slug_chars, slug_of, string_of, utf8_len, utf8_len_between, utf8_len_at_most};

verus! {

#[derive(Clone, Debug, PartialEq, Eq)]
pub struct Channel {
    pub id: u128,
    pub organization_id: u128,
    pub space_id: u128,
    pub kind: String,
    pub name: String,
    pub slug: String,
    pub position: i32,
    pub topic: Option<String>,
    pub is_private: bool,
}

#[derive(Clone, Debug, Default, PartialEq, Eq)]
pub struct ChannelPatch {
    pub name: Option<String>,
    pub topic: Option<String>,
    pub position: Option<i32>,
    pub is_private: Option<bool>,
}

#[derive(Debug, PartialEq, Eq)]
pub enum ChannelError {
    InvalidInput(&'static str),
    SlugAlreadyExists,
    NotFound,
    StoreUnavailable,
}

impl ChannelError {
    pub fn status_code(&self) -> (r: u16)
        ensures
            r == (match self {
                ChannelError::InvalidInput(_) => 400u16,
                ChannelError::SlugAlreadyExists => 409,
                ChannelError::NotFound => 404,
                ChannelError::StoreUnavailable => 500,
            }),
    {
        match self {
            ChannelError::InvalidInput(_) => 400,
            ChannelError::SlugAlreadyExists => 409,
            ChannelError::NotFound => 404,
            ChannelError::StoreUnavailable => 500,
        }
    }

    pub fn code(&self) -> (r: &'static str)
        ensures
            r@ == (match self {
                ChannelError::InvalidInput(_) => "invalid_request"@,
                ChannelError::SlugAlreadyExists => "channel_slug_already_exists"@,
                ChannelError::NotFound => "channel_not_found"@,
                ChannelError::StoreUnavailable => "store_unavailable"@,
            }),
    {
        match self {
            ChannelError::InvalidInput(_) => "invalid_request",
            ChannelError::SlugAlreadyExists => "channel_slug_already_exists",
            ChannelError::NotFound => "channel_not_found",
            ChannelError::StoreUnavailable => "store_unavailable",
        }
    }

    pub fn message(&self) -> (r: &'static str)
        ensures
            r@ == (match self {
                ChannelError::InvalidInput(m) => m@,
                ChannelError::SlugAlreadyExists => "channel slug already exists in this space"@,
                ChannelError::NotFound => "channel was not found"@,
                ChannelError::StoreUnavailable => "channel store is unavailable"@,
            }),
    {
        match self {
            ChannelError::InvalidInput(m) => m,
            ChannelError::SlugAlreadyExists => "channel slug already exists in this space",
            ChannelError::NotFound => "channel was not found",
            ChannelError::StoreUnavailable => "channel store is unavailable",
        }
    }
}

/// A channel name is valid when, white space runs collapsed, it is 1 to 100
/// bytes long.
pub open spec fn valid_channel_name(name: Seq<char>) -> bool {
    1 <= utf8_len(collapse_ws(name)) <= 100
}

pub fn normalize_name(name: String) -> (r: Result<String, ChannelError>)
    ensures
        match r {
            Ok(n) => valid_channel_name(name@) && n@ == collapse_ws(name@),
            Err(e) => !valid_channel_name(name@) && e == ChannelError::InvalidInput(
                "channel name must be between 1 and 100 characters",
            ),
        },
{
    let n = collapsed(name.as_str());
    if utf8_len_between(&n, 1, 100) {
        Ok(string_of(&n))
    } else {
        Err(ChannelError::InvalidInput("channel name must be between 1 and 100 characters"))
    }
}

/// The topic after normalisation: white space runs collapsed, absent when
/// that leaves nothing.
pub open spec fn normalized_topic(topic: Option<String>) -> Result<Option<Seq<char>>, ChannelError> {
    match topic {
        None => Ok(None),
        Some(t) => {
            let n = collapse_ws(t@);
            if utf8_len(n) > 1024 {
                Err(ChannelError::InvalidInput("channel topic must be 1024 characters or fewer"))
            } else if n.len() == 0 {
                Ok(None)
            } else {
                Ok(Some(n))
            }
        },
    }
}

pub open spec fn opt_view(o: Option<String>) -> Option<Seq<char>> {
    match o {
        Some(s) => Some(s@),
        None => None,
    }
}

pub fn normalize_topic(topic: Option<String>) -> (r: Result<Option<String>, ChannelError>)
    ensures
        match r {
            Ok(t) => normalized_topic(topic) == Ok::<Option<Seq<char>>, ChannelError>(opt_view(t)),
            Err(e) => normalized_topic(topic) == Err::<Option<Seq<char>>, ChannelError>(e),
        },
{
    let topic = match topic {
        None => return Ok(None),
        Some(t) => t,
    };
    let n = collapsed(topic.as_str());
    if !utf8_len_at_most(&n, 1024) {
        Err(ChannelError::InvalidInput("channel topic must be 1024 characters or fewer"))
    } else if n.len() == 0 {
        Ok(None)
    } else {
        Ok(Some(string_of(&n)))
    }
}

/// The slug of a channel name; a name with no letter or digit has none.
pub fn slugify(name: &str) -> (r: Result<String, ChannelError>)
    ensures
        match r {
            Ok(s) => s@ == slug_of(name@) && s@.len() > 0,
            Err(e) => slug_of(name@).len() == 0 && e == ChannelError::InvalidInput(
                "channel name must include letters or numbers",
            ),
        },
{
    let s = slug_chars(&crate::text::chars_of(name));
    if s.len() == 0 {
        Err(ChannelError::InvalidInput("channel name must include letters or numbers"))
    } else {
        Ok(string_of(&s))
    }
}

/// A new text channel at position 0 (`create` before the store call).
pub fn new_channel(
    id: u128,
    organization_id: u128,
    space_id: u128,
    name: String,
    topic: Option<String>,
    is_private: bool,
) -> (r: Result<Channel, ChannelError>)
    ensures
        match r {
            Ok(c) => {
                &&& valid_channel_name(name@)
                &&& c.id == id && c.organization_id == organization_id && c.space_id == space_id
                &&& c.kind@ == "text"@
                &&& c.name@ == collapse_ws(name@)
                &&& c.slug@ == slug_of(collapse_ws(name@)) && c.slug@.len() > 0
                &&& c.position == 0
                &&& normalized_topic(topic) == Ok::<Option<Seq<char>>, ChannelError>(opt_view(c.topic))
                &&& c.is_private == is_private
            },
            Err(e) => {
                ||| !valid_channel_name(name@) && e == ChannelError::InvalidInput(
                    "channel name must be between 1 and 100 characters",
                )
                ||| valid_channel_name(name@) && slug_of(collapse_ws(name@)).len() == 0 && e
                    == ChannelError::InvalidInput("channel name must include letters or numbers")
                ||| valid_channel_name(name@) && slug_of(collapse_ws(name@)).len() > 0
                    && normalized_topic(topic) == Err::<Option<Seq<char>>, ChannelError>(e)
            },
        },
{
    let name = normalize_name(name)?;
    let slug = slugify(name.as_str())?;
    let topic = normalize_topic(topic)?;
    Ok(Channel {
        id,
        organization_id,
        space_id,
        kind: string_of(&crate::text::chars_of("text")),
        name,
        slug,
        position: 0,
        topic,
        is_private,
    })
}

/// Why a patch is refused, checked in order: name, its slug, topic,
/// position.
pub open spec fn channel_patch_error(patch: ChannelPatch) -> Option<ChannelError> {
    if patch.name is Some && !valid_channel_name(patch.name->0@) {
        Some(ChannelError::InvalidInput("channel name must be between 1 and 100 characters"))
    } else if patch.name is Some && slug_of(collapse_ws(patch.name->0@)).len() == 0 {
        Some(ChannelError::InvalidInput("channel name must include letters or numbers"))
    } else if patch.topic is Some && normalized_topic(patch.topic) is Err {
        Some(normalized_topic(patch.topic)->Err_0)
    } else if patch.position is Some && patch.position->0 < 0 {
        Some(ChannelError::InvalidInput("channel position must be greater than or equal to 0"))
    } else {
        None
    }
}

/// The channel after `patch` (`update` before the store call): a new name
/// also renews the slug; a negative position is refused.
pub fn apply_patch(existing: Channel, patch: ChannelPatch) -> (r: Result<Channel, ChannelError>)
    ensures
        match r {
            Ok(c) => {
                &&& c.id == existing.id && c.organization_id == existing.organization_id
                &&& c.space_id == existing.space_id && c.kind == existing.kind
                &&& match patch.name {
                    Some(n) => valid_channel_name(n@) && c.name@ == collapse_ws(n@) && c.slug@
                        == slug_of(collapse_ws(n@)) && c.slug@.len() > 0,
                    None => c.name == existing.name && c.slug == existing.slug,
                }
                &&& match patch.topic {
                    Some(t) => normalized_topic(Some(t)) == Ok::<Option<Seq<char>>, ChannelError>(
                        opt_view(c.topic),
                    ),
                    None => c.topic == existing.topic,
                }
                &&& match patch.position {
                    Some(p) => p >= 0 && c.position == p,
                    None => c.position == existing.position,
                }
                &&& c.is_private == (match patch.is_private {
                    Some(b) => b,
                    None => existing.is_private,
                })
            },
            Err(e) => Some(e) == channel_patch_error(patch),
        },
        r is Ok <==> channel_patch_error(patch) is None,
{
    let mut existing = existing;
    if let Some(name) = patch.name {
        let name = normalize_name(name)?;
        existing.slug = slugify(name.as_str())?;
        existing.name = name;
    }
    if let Some(topic) = patch.topic {
        existing.topic = normalize_topic(Some(topic))?;
    }
    if let Some(position) = patch.position {
        if position < 0 {
            return Err(
                ChannelError::InvalidInput("channel position must be greater than or equal to 0"),
            );
        }
        existing.position = position;
    }
    if let Some(is_private) = patch.is_private {
        existing.is_private = is_private;
    }
    Ok(existing)
}

/// `Ok` when the store found the channel, else `NotFound` (`get`).
pub fn found_channel(found: Option<Channel>) -> (r: Result<Channel, ChannelError>)
    ensures
        match found {
            Some(c) => r == Ok::<Channel, ChannelError>(c),
            None => r == Err::<Channel, ChannelError>(ChannelError::NotFound),
        },
{
    match found {
        Some(c) => Ok(c),
        None => Err(ChannelError::NotFound),
    }
}

} // verus!
