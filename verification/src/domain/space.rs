//! Spaces of an organization: names, slugs and the owner's membership.
use vstd::prelude::*;

use crate::text::{chars_of, collapse_ws, collapsed, slug_chars, slug_of, string_of, utf8_len, utf8_len_between};

verus! {

#[derive(Clone, Debug, PartialEq, Eq)]
pub struct StoredSpace {
    pub id: u128,
    pub organization_id: u128,
    pub slug: String,
    pub name: String,
    pub owner_user_id: u128,
}

#[derive(Clone, Debug, PartialEq, Eq)]
pub struct StoredSpaceMember {
    pub space_id: u128,
    pub user_id: u128,
    pub role: String,
    pub status: String,
}

#[derive(Clone, Debug, PartialEq, Eq)]
pub struct SpaceMembership {
    pub id: u128,
    pub organization_id: u128,
    pub slug: String,
    pub name: String,
    pub role: String,
}

#[derive(Debug, PartialEq, Eq)]
pub enum SpaceError {
    InvalidInput(&'static str),
    SlugAlreadyExists,
    NotFound,
    StoreUnavailable,
}

impl SpaceError {
    pub fn status_code(&self) -> (r: u16)
        ensures
            r == (match self {
                SpaceError::InvalidInput(_) => 400u16,
                SpaceError::SlugAlreadyExists => 409,
                SpaceError::NotFound => 404,
                SpaceError::StoreUnavailable => 500,
            }),
    {
        match self {
            SpaceError::InvalidInput(_) => 400,
            SpaceError::SlugAlreadyExists => 409,
            SpaceError::NotFound => 404,
            SpaceError::StoreUnavailable => 500,
        }
    }

    pub fn code(&self) -> (r: &'static str)
        ensures
            r@ == (match self {
                SpaceError::InvalidInput(_) => "invalid_request"@,
                SpaceError::SlugAlreadyExists => "space_slug_already_exists"@,
                SpaceError::NotFound => "space_not_found"@,
                SpaceError::StoreUnavailable => "store_unavailable"@,
            }),
    {
        match self {
            SpaceError::InvalidInput(_) => "invalid_request",
            SpaceError::SlugAlreadyExists => "space_slug_already_exists",
            SpaceError::NotFound => "space_not_found",
            SpaceError::StoreUnavailable => "store_unavailable",
        }
    }

    pub fn message(&self) -> (r: &'static str)
        ensures
            r@ == (match self {
                SpaceError::InvalidInput(m) => m@,
                SpaceError::SlugAlreadyExists => "space slug already exists in this organization"@,
                SpaceError::NotFound => "space was not found"@,
                SpaceError::StoreUnavailable => "space store is unavailable"@,
            }),
    {
        match self {
            SpaceError::InvalidInput(m) => m,
            SpaceError::SlugAlreadyExists => "space slug already exists in this organization",
            SpaceError::NotFound => "space was not found",
            SpaceError::StoreUnavailable => "space store is unavailable",
        }
    }
}

/// A space name is valid when, white space runs collapsed, it is 2 to 100
/// bytes long.
pub open spec fn valid_space_name(name: Seq<char>) -> bool {
    2 <= utf8_len(collapse_ws(name)) <= 100
}

pub fn normalize_name(name: String) -> (r: Result<String, SpaceError>)
    ensures
        match r {
            Ok(n) => valid_space_name(name@) && n@ == collapse_ws(name@),
            Err(e) => !valid_space_name(name@) && e == SpaceError::InvalidInput(
                "space name must be between 2 and 100 characters",
            ),
        },
{
    let n = collapsed(name.as_str());
    if utf8_len_between(&n, 2, 100) {
        Ok(string_of(&n))
    } else {
        Err(SpaceError::InvalidInput("space name must be between 2 and 100 characters"))
    }
}

pub fn slugify(name: &str) -> (r: Result<String, SpaceError>)
    ensures
        match r {
            Ok(s) => s@ == slug_of(name@) && s@.len() > 0,
            Err(e) => slug_of(name@).len() == 0 && e == SpaceError::InvalidInput(
                "space name must include letters or numbers",
            ),
        },
{
    let s = slug_chars(&chars_of(name));
    if s.len() == 0 {
        Err(SpaceError::InvalidInput("space name must include letters or numbers"))
    } else {
        Ok(string_of(&s))
    }
}

/// What `create` hands to the store and returns: the space, its owner's
/// membership and the owner's view of the space.
pub struct NewSpace {
    pub space: StoredSpace,
    pub owner_member: StoredSpaceMember,
    pub membership: SpaceMembership,
}

pub fn new_space(id: u128, owner_user_id: u128, organization_id: u128, name: String) -> (r: Result<NewSpace, SpaceError>)
    ensures
        match r {
            Ok(n) => {
                &&& valid_space_name(name@)
                &&& slug_of(collapse_ws(name@)).len() > 0
                &&& n.space.id == id && n.space.organization_id == organization_id
                &&& n.space.owner_user_id == owner_user_id
                &&& n.space.name@ == collapse_ws(name@)
                &&& n.space.slug@ == slug_of(collapse_ws(name@))
                &&& n.owner_member.space_id == id && n.owner_member.user_id == owner_user_id
                &&& n.owner_member.role@ == "owner"@ && n.owner_member.status@ == "active"@
                &&& n.membership.id == id && n.membership.organization_id == organization_id
                &&& n.membership.slug == n.space.slug && n.membership.name == n.space.name
                &&& n.membership.role@ == "owner"@
            },
            Err(e) => {
                ||| !valid_space_name(name@) && e == SpaceError::InvalidInput(
                    "space name must be between 2 and 100 characters",
                )
                ||| valid_space_name(name@) && slug_of(collapse_ws(name@)).len() == 0 && e
                    == SpaceError::InvalidInput("space name must include letters or numbers")
            },
        },
{
    let name = normalize_name(name)?;
    let slug = slugify(name.as_str())?;
    let space = StoredSpace {
        id,
        organization_id,
        slug: slug.clone(),
        name: name.clone(),
        owner_user_id,
    };
    let owner_member = StoredSpaceMember {
        space_id: id,
        user_id: owner_user_id,
        role: string_of(&chars_of("owner")),
        status: string_of(&chars_of("active")),
    };
    let membership = SpaceMembership {
        id,
        organization_id,
        slug,
        name,
        role: string_of(&chars_of("owner")),
    };
    Ok(NewSpace { space, owner_member, membership })
}

/// `Ok` when the store found the membership, else `NotFound`
/// (`get_for_user`).
pub fn found_space(found: Option<SpaceMembership>) -> (r: Result<SpaceMembership, SpaceError>)
    ensures
        match found {
            Some(m) => r == Ok::<SpaceMembership, SpaceError>(m),
            None => r == Err::<SpaceMembership, SpaceError>(SpaceError::NotFound),
        },
{
    match found {
        Some(m) => Ok(m),
        None => Err(SpaceError::NotFound),
    }
}

} // verus!
