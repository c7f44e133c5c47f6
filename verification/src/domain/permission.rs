//! Space and channel permissions: the permission bits, their names, role
//! defaults, channel overrides and the effective permission of a member.
use vstd::prelude::*;

use crate::text::{
    chars_of, collapse_whitespace, collapse_ws, eq_str, is_ascii_hexdigit,
    string_of, to_ascii_uppercase, trim, trim_seq, upper_seq, utf8_len, utf8_len_at_most,
};

verus! {

pub const VIEW_CHANNEL: u64 = 1;

pub const SEND_MESSAGES: u64 = 2;

pub const MANAGE_MESSAGES: u64 = 4;

pub const MANAGE_CHANNELS: u64 = 8;

pub const MANAGE_ROLES: u64 = 16;

pub const INVITE_MEMBERS: u64 = 32;

pub const MANAGE_SPACE: u64 = 64;

/// Every permission bit: what owners and admins hold.
pub const ALL_MINIMAL_PERMISSIONS: u64 = 127;

#[derive(Clone, Copy, Debug, PartialEq, Eq)]
pub enum Permission {
    ViewChannel,
    SendMessages,
    ManageMessages,
    ManageChannels,
    ManageRoles,
    InviteMembers,
    ManageSpace,
}

/// The bit of a permission.
pub open spec fn permission_bit(p: Permission) -> u64 {
    match p {
        Permission::ViewChannel => VIEW_CHANNEL,
        Permission::SendMessages => SEND_MESSAGES,
        Permission::ManageMessages => MANAGE_MESSAGES,
        Permission::ManageChannels => MANAGE_CHANNELS,
        Permission::ManageRoles => MANAGE_ROLES,
        Permission::InviteMembers => INVITE_MEMBERS,
        Permission::ManageSpace => MANAGE_SPACE,
    }
}

/// The wire name of a permission.
pub open spec fn permission_name(p: Permission) -> Seq<char> {
    match p {
        Permission::ViewChannel => "VIEW_CHANNEL"@,
        Permission::SendMessages => "SEND_MESSAGES"@,
        Permission::ManageMessages => "MANAGE_MESSAGES"@,
        Permission::ManageChannels => "MANAGE_CHANNELS"@,
        Permission::ManageRoles => "MANAGE_ROLES"@,
        Permission::InviteMembers => "INVITE_MEMBERS"@,
        Permission::ManageSpace => "MANAGE_SPACE"@,
    }
}

/// The permission whose name is `key`, if any.
pub open spec fn permission_named(key: Seq<char>) -> Option<Permission> {
    if key == "VIEW_CHANNEL"@ {
        Some(Permission::ViewChannel)
    } else if key == "SEND_MESSAGES"@ {
        Some(Permission::SendMessages)
    } else if key == "MANAGE_MESSAGES"@ {
        Some(Permission::ManageMessages)
    } else if key == "MANAGE_CHANNELS"@ {
        Some(Permission::ManageChannels)
    } else if key == "MANAGE_ROLES"@ {
        Some(Permission::ManageRoles)
    } else if key == "INVITE_MEMBERS"@ {
        Some(Permission::InviteMembers)
    } else if key == "MANAGE_SPACE"@ {
        Some(Permission::ManageSpace)
    } else {
        None
    }
}

/// What `Permission::parse` reads from `value`: trimmed and upper-cased.
pub open spec fn permission_key(value: Seq<char>) -> Seq<char> {
    upper_seq(trim_seq(value))
}

impl Permission {
    pub fn bit(self) -> (r: u64)
        ensures
            r == permission_bit(self),
    {
        match self {
            Permission::ViewChannel => VIEW_CHANNEL,
            Permission::SendMessages => SEND_MESSAGES,
            Permission::ManageMessages => MANAGE_MESSAGES,
            Permission::ManageChannels => MANAGE_CHANNELS,
            Permission::ManageRoles => MANAGE_ROLES,
            Permission::InviteMembers => INVITE_MEMBERS,
            Permission::ManageSpace => MANAGE_SPACE,
        }
    }

    pub fn as_str(self) -> (r: &'static str)
        ensures
            r@ == permission_name(self),
    {
        match self {
            Permission::ViewChannel => "VIEW_CHANNEL",
            Permission::SendMessages => "SEND_MESSAGES",
            Permission::ManageMessages => "MANAGE_MESSAGES",
            Permission::ManageChannels => "MANAGE_CHANNELS",
            Permission::ManageRoles => "MANAGE_ROLES",
            Permission::InviteMembers => "INVITE_MEMBERS",
            Permission::ManageSpace => "MANAGE_SPACE",
        }
    }

    /// Reads a permission name, ignoring surrounding white space and ASCII
    /// case.
    pub fn parse(value: &str) -> (r: Result<Permission, PermissionError>)
        ensures
            r == (match permission_named(permission_key(value@)) {
                Some(p) => Ok(p),
                None => Err(PermissionError::InvalidInput("permission name is not supported")),
            }),
    {
        let key = to_ascii_uppercase(&trim(&chars_of(value)));
        if eq_str(&key, "VIEW_CHANNEL") {
            Ok(Permission::ViewChannel)
        } else if eq_str(&key, "SEND_MESSAGES") {
            Ok(Permission::SendMessages)
        } else if eq_str(&key, "MANAGE_MESSAGES") {
            Ok(Permission::ManageMessages)
        } else if eq_str(&key, "MANAGE_CHANNELS") {
            Ok(Permission::ManageChannels)
        } else if eq_str(&key, "MANAGE_ROLES") {
            Ok(Permission::ManageRoles)
        } else if eq_str(&key, "INVITE_MEMBERS") {
            Ok(Permission::InviteMembers)
        } else if eq_str(&key, "MANAGE_SPACE") {
            Ok(Permission::ManageSpace)
        } else {
            Err(PermissionError::InvalidInput("permission name is not supported"))
        }
    }
}

/// The names listed for `bitset` when `p` is one of its permissions.
pub open spec fn name_if_set(bitset: u64, p: Permission) -> Seq<Seq<char>> {
    if bitset & permission_bit(p) != 0 {
        seq![permission_name(p)]
    } else {
        seq![]
    }
}

/// The names of the permissions in `bitset`, in declaration order.
pub open spec fn permission_names_of(bitset: u64) -> Seq<Seq<char>> {
    name_if_set(bitset, Permission::ViewChannel) + name_if_set(bitset, Permission::SendMessages)
        + name_if_set(bitset, Permission::ManageMessages) + name_if_set(
        bitset,
        Permission::ManageChannels,
    ) + name_if_set(bitset, Permission::ManageRoles) + name_if_set(
        bitset,
        Permission::InviteMembers,
    ) + name_if_set(bitset, Permission::ManageSpace)
}

fn push_name_if_set(names: &mut Vec<&'static str>, bitset: u64, p: Permission)
    ensures
        final(names)@.map_values(|s: &'static str| s@) == old(names)@.map_values(
            |s: &'static str| s@,
        ) + name_if_set(bitset, p),
{
    if bitset & p.bit() != 0 {
        names.push(p.as_str());
    }
    assert(final(names)@.map_values(|s: &'static str| s@) =~= old(names)@.map_values(
        |s: &'static str| s@,
    ) + name_if_set(bitset, p));
}

/// The names of the permissions whose bits are set in `bitset`.
pub fn permission_names(bitset: u64) -> (r: Vec<&'static str>)
    ensures
        r@.map_values(|s: &'static str| s@) == permission_names_of(bitset),
{
    let mut names: Vec<&'static str> = Vec::new();
    assert(names@.map_values(|s: &'static str| s@) =~= Seq::<Seq<char>>::empty());
    push_name_if_set(&mut names, bitset, Permission::ViewChannel);
    push_name_if_set(&mut names, bitset, Permission::SendMessages);
    push_name_if_set(&mut names, bitset, Permission::ManageMessages);
    push_name_if_set(&mut names, bitset, Permission::ManageChannels);
    push_name_if_set(&mut names, bitset, Permission::ManageRoles);
    push_name_if_set(&mut names, bitset, Permission::InviteMembers);
    push_name_if_set(&mut names, bitset, Permission::ManageSpace);
    assert(permission_names_of(bitset) =~= Seq::<Seq<char>>::empty() + name_if_set(
        bitset,
        Permission::ViewChannel,
    ) + name_if_set(bitset, Permission::SendMessages) + name_if_set(
        bitset,
        Permission::ManageMessages,
    ) + name_if_set(bitset, Permission::ManageChannels) + name_if_set(
        bitset,
        Permission::ManageRoles,
    ) + name_if_set(bitset, Permission::InviteMembers) + name_if_set(
        bitset,
        Permission::ManageSpace,
    ));
    names
}

#[derive(Clone, Copy, Debug, PartialEq, Eq)]
pub enum PermissionTargetKind {
    Role,
    Member,
}

impl PermissionTargetKind {
    pub fn as_str(self) -> (r: &'static str)
        ensures
            r@ == (match self {
                PermissionTargetKind::Role => "role"@,
                PermissionTargetKind::Member => "member"@,
            }),
    {
        match self {
            PermissionTargetKind::Role => "role",
            PermissionTargetKind::Member => "member",
        }
    }

    /// Reads `role` or `member`, ignoring surrounding white space and ASCII
    /// case.
    pub fn parse(value: &str) -> (r: Result<PermissionTargetKind, PermissionError>)
        ensures
            ({
                let key = crate::text::lower_seq(trim_seq(value@));
                r == (if key == "role"@ {
                    Ok(PermissionTargetKind::Role)
                } else if key == "member"@ {
                    Ok(PermissionTargetKind::Member)
                } else {
                    Err(
                        PermissionError::InvalidInput(
                            "permission override target_kind must be role or member",
                        ),
                    )
                })
            }),
    {
        let key = crate::text::to_ascii_lowercase(&trim(&chars_of(value)));
        if eq_str(&key, "role") {
            Ok(PermissionTargetKind::Role)
        } else if eq_str(&key, "member") {
            Ok(PermissionTargetKind::Member)
        } else {
            Err(
                PermissionError::InvalidInput(
                    "permission override target_kind must be role or member",
                ),
            )
        }
    }
}

/// A channel override that allows and denies bits to a role or a member.
#[derive(Clone, Debug, PartialEq, Eq)]
pub struct ChannelPermissionOverride {
    pub channel_id: u128,
    pub target_kind: PermissionTargetKind,
    pub target_id: u128,
    pub allow_bitset: u64,
    pub deny_bitset: u64,
}

/// A role assigned to a member, with the bits it grants.
#[derive(Clone, Debug, PartialEq, Eq)]
pub struct AssignedRole {
    pub id: u128,
    pub permissions_bitset: u64,
}

/// A role of a space.
#[derive(Clone, Debug, PartialEq, Eq)]
pub struct Role {
    pub id: u128,
    pub organization_id: u128,
    pub space_id: u128,
    pub name: String,
    pub color: Option<String>,
    pub position: i32,
    pub permissions_bitset: u64,
}

/// A role given to a member of a space.
#[derive(Clone, Debug, PartialEq, Eq)]
pub struct RoleAssignment {
    pub space_id: u128,
    pub role_id: u128,
    pub user_id: u128,
    pub assigned_by_user_id: u128,
}

#[derive(Debug, PartialEq, Eq)]
pub enum PermissionError {
    InvalidInput(&'static str),
    Forbidden,
    RoleAlreadyExists,
    RoleNotFound,
    StoreUnavailable,
}

impl PermissionError {
    /// The HTTP status that reports this error.
    pub fn status_code(&self) -> (r: u16)
        ensures
            r == (match self {
                PermissionError::InvalidInput(_) => 400u16,
                PermissionError::Forbidden => 403,
                PermissionError::RoleAlreadyExists => 409,
                PermissionError::RoleNotFound => 404,
                PermissionError::StoreUnavailable => 500,
            }),
    {
        match self {
            PermissionError::InvalidInput(_) => 400,
            PermissionError::Forbidden => 403,
            PermissionError::RoleAlreadyExists => 409,
            PermissionError::RoleNotFound => 404,
            PermissionError::StoreUnavailable => 500,
        }
    }

    pub fn code(&self) -> (r: &'static str)
        ensures
            r@ == (match self {
                PermissionError::InvalidInput(_) => "invalid_request"@,
                PermissionError::Forbidden => "forbidden"@,
                PermissionError::RoleAlreadyExists => "role_already_exists"@,
                PermissionError::RoleNotFound => "role_not_found"@,
                PermissionError::StoreUnavailable => "permission_store_unavailable"@,
            }),
    {
        match self {
            PermissionError::InvalidInput(_) => "invalid_request",
            PermissionError::Forbidden => "forbidden",
            PermissionError::RoleAlreadyExists => "role_already_exists",
            PermissionError::RoleNotFound => "role_not_found",
            PermissionError::StoreUnavailable => "permission_store_unavailable",
        }
    }

    pub fn message(&self) -> (r: &'static str)
        ensures
            r@ == (match self {
                PermissionError::InvalidInput(m) => m@,
                PermissionError::Forbidden => "permission denied"@,
                PermissionError::RoleAlreadyExists => "role name already exists in this space"@,
                PermissionError::RoleNotFound => "role was not found"@,
                PermissionError::StoreUnavailable => "permission store is unavailable"@,
            }),
    {
        match self {
            PermissionError::InvalidInput(m) => m,
            PermissionError::Forbidden => "permission denied",
            PermissionError::RoleAlreadyExists => "role name already exists in this space",
            PermissionError::RoleNotFound => "role was not found",
            PermissionError::StoreUnavailable => "permission store is unavailable",
        }
    }
}

/// The bits that a space role grants before any assigned role.
pub open spec fn builtin_permissions_of(role: Seq<char>) -> u64 {
    if role == "owner"@ || role == "admin"@ {
        ALL_MINIMAL_PERMISSIONS
    } else if role == "member"@ {
        VIEW_CHANNEL | SEND_MESSAGES
    } else if role == "guest"@ {
        VIEW_CHANNEL
    } else {
        0
    }
}

/// Owners and admins of a space hold every permission.
pub open spec fn is_admin_role_name(role: Seq<char>) -> bool {
    role == "owner"@ || role == "admin"@
}

pub fn builtin_permissions_for_role(role: &str) -> (r: u64)
    ensures
        r == builtin_permissions_of(role@),
{
    let role = chars_of(role);
    if eq_str(&role, "owner") || eq_str(&role, "admin") {
        ALL_MINIMAL_PERMISSIONS
    } else if eq_str(&role, "member") {
        VIEW_CHANNEL | SEND_MESSAGES
    } else if eq_str(&role, "guest") {
        VIEW_CHANNEL
    } else {
        0
    }
}

pub fn is_admin_role(role: &str) -> (r: bool)
    ensures
        r == is_admin_role_name(role@),
{
    let role = chars_of(role);
    eq_str(&role, "owner") || eq_str(&role, "admin")
}

/// OR of the bits of the assigned roles.
pub open spec fn assigned_bits(roles: Seq<AssignedRole>) -> u64
    decreases roles.len(),
{
    if roles.len() == 0 {
        0
    } else {
        assigned_bits(roles.drop_last()) | roles.last().permissions_bitset
    }
}

/// Which overrides apply to the member: role overrides for one of
/// `role_ids`, member overrides for `user_id`.
pub open spec fn targets_role(o: ChannelPermissionOverride, role_ids: Seq<u128>) -> bool {
    o.target_kind == PermissionTargetKind::Role && role_ids.contains(o.target_id)
}

pub open spec fn targets_member(o: ChannelPermissionOverride, user_id: u128) -> bool {
    o.target_kind == PermissionTargetKind::Member && o.target_id == user_id
}

/// OR of the allow (`allow == true`) or deny bits of the overrides selected
/// by `sel`.
pub open spec fn override_bits(
    os: Seq<ChannelPermissionOverride>,
    sel: spec_fn(ChannelPermissionOverride) -> bool,
    allow: bool,
) -> u64
    decreases os.len(),
{
    if os.len() == 0 {
        0
    } else {
        let rest = override_bits(os.drop_last(), sel, allow);
        let o = os.last();
        if sel(o) {
            rest | (if allow {
                o.allow_bitset
            } else {
                o.deny_bitset
            })
        } else {
            rest
        }
    }
}

/// Role overrides first, then member overrides: a deny clears bits, an allow
/// that is not denied at the same level sets them.
pub open spec fn apply_override_bits(
    effective: u64,
    role_allow: u64,
    role_deny: u64,
    member_allow: u64,
    member_deny: u64,
) -> u64 {
    let e1 = effective & !role_deny;
    let e2 = e1 | (role_allow & !role_deny);
    let e3 = e2 & !member_deny;
    e3 | (member_allow & !member_deny)
}

pub open spec fn overridden_permissions(
    effective: u64,
    user_id: u128,
    role_ids: Seq<u128>,
    overrides: Seq<ChannelPermissionOverride>,
) -> u64 {
    let role_sel = |o: ChannelPermissionOverride| targets_role(o, role_ids);
    let member_sel = |o: ChannelPermissionOverride| targets_member(o, user_id);
    apply_override_bits(
        effective,
        override_bits(overrides, role_sel, true),
        override_bits(overrides, role_sel, false),
        override_bits(overrides, member_sel, true),
        override_bits(overrides, member_sel, false),
    )
}

fn contains_id(ids: &Vec<u128>, id: u128) -> (r: bool)
    ensures
        r == ids@.contains(id),
{
    let mut i: usize = 0;
    while i < ids.len()
        invariant
            i <= ids.len(),
            forall|k: int| 0 <= k < i ==> ids@[k] != id,
        decreases ids.len() - i,
    {
        if ids[i] == id {
            assert(ids@[i as int] == id);
            return true;
        }
        i += 1;
    }
    false
}

/// Applies the channel overrides that concern the member to `effective`.
pub fn apply_channel_overrides(
    effective: u64,
    user_id: u128,
    role_ids: &Vec<u128>,
    overrides: Vec<ChannelPermissionOverride>,
) -> (r: u64)
    ensures
        r == overridden_permissions(effective, user_id, role_ids@, overrides@),
{
    let ghost role_sel = |o: ChannelPermissionOverride| targets_role(o, role_ids@);
    let ghost member_sel = |o: ChannelPermissionOverride| targets_member(o, user_id);
    let mut role_allow: u64 = 0;
    let mut role_deny: u64 = 0;
    let mut member_allow: u64 = 0;
    let mut member_deny: u64 = 0;
    let mut i: usize = 0;
    while i < overrides.len()
        invariant
            i <= overrides.len(),
            role_sel == (|o: ChannelPermissionOverride| targets_role(o, role_ids@)),
            member_sel == (|o: ChannelPermissionOverride| targets_member(o, user_id)),
            role_allow == override_bits(overrides@.take(i as int), role_sel, true),
            role_deny == override_bits(overrides@.take(i as int), role_sel, false),
            member_allow == override_bits(overrides@.take(i as int), member_sel, true),
            member_deny == override_bits(overrides@.take(i as int), member_sel, false),
        decreases overrides.len() - i,
    {
        let o = &overrides[i];
        let ghost t = overrides@.take(i as int + 1);
        assert(t.drop_last() =~= overrides@.take(i as int));
        assert(t.last() == *o);
        let is_role = match o.target_kind {
            PermissionTargetKind::Role => true,
            PermissionTargetKind::Member => false,
        };
        let hits_role = is_role && contains_id(role_ids, o.target_id);
        let hits_member = !is_role && o.target_id == user_id;
        assert(is_role == (o.target_kind == PermissionTargetKind::Role));
        assert(hits_role == targets_role(*o, role_ids@));
        assert(hits_role == role_sel(t.last()));
        assert(hits_member == member_sel(t.last()));
        if hits_role {
            role_allow = role_allow | o.allow_bitset;
            role_deny = role_deny | o.deny_bitset;
        } else if hits_member {
            member_allow = member_allow | o.allow_bitset;
            member_deny = member_deny | o.deny_bitset;
        }
        i += 1;
    }
    assert(overrides@.take(overrides.len() as int) =~= overrides@);
    let mut effective = effective & !role_deny;
    effective = effective | (role_allow & !role_deny);
    effective = effective & !member_deny;
    effective = effective | (member_allow & !member_deny);
    effective
}

/// The ids of the assigned roles, in order.
pub fn role_ids_of(roles: &Vec<AssignedRole>) -> (r: Vec<u128>)
    ensures
        r@ == roles@.map_values(|a: AssignedRole| a.id),
{
    let mut r: Vec<u128> = Vec::new();
    let mut i: usize = 0;
    while i < roles.len()
        invariant
            i <= roles.len(),
            r@ == roles@.take(i as int).map_values(|a: AssignedRole| a.id),
        decreases roles.len() - i,
    {
        r.push(roles[i].id);
        assert(roles@.take(i as int + 1).map_values(|a: AssignedRole| a.id) =~= roles@.take(
            i as int,
        ).map_values(|a: AssignedRole| a.id).push(roles@[i as int].id));
        i += 1;
    }
    assert(roles@.take(roles.len() as int) =~= roles@);
    r
}

/// The bits of a member in a space: those of the space role and of every
/// assigned role.
pub open spec fn space_permissions_of(space_role: Seq<char>, roles: Seq<AssignedRole>) -> u64 {
    builtin_permissions_of(space_role) | assigned_bits(roles)
}

pub fn effective_space_permissions(space_role: &str, roles: &Vec<AssignedRole>) -> (r: u64)
    ensures
        r == space_permissions_of(space_role@, roles@),
{
    let mut bits: u64 = 0;
    let mut i: usize = 0;
    while i < roles.len()
        invariant
            i <= roles.len(),
            bits == assigned_bits(roles@.take(i as int)),
        decreases roles.len() - i,
    {
        assert(roles@.take(i as int + 1).drop_last() =~= roles@.take(i as int));
        bits = bits | roles[i].permissions_bitset;
        i += 1;
    }
    assert(roles@.take(roles.len() as int) =~= roles@);
    builtin_permissions_for_role(space_role) | bits
}

/// Whether the member may use `permission` in the space.
pub open spec fn allowed_in_space(
    space_role: Seq<char>,
    roles: Seq<AssignedRole>,
    permission: Permission,
) -> bool {
    is_admin_role_name(space_role) || space_permissions_of(space_role, roles) & permission_bit(
        permission,
    ) != 0
}

/// Whether the member may use `permission` in the channel, the channel's
/// overrides applied.
pub open spec fn allowed_in_channel(
    space_role: Seq<char>,
    user_id: u128,
    roles: Seq<AssignedRole>,
    overrides: Seq<ChannelPermissionOverride>,
    permission: Permission,
) -> bool {
    is_admin_role_name(space_role) || overridden_permissions(
        space_permissions_of(space_role, roles),
        user_id,
        roles.map_values(|a: AssignedRole| a.id),
        overrides,
    ) & permission_bit(permission) != 0
}

/// The decision of `can_in_space`, given the roles assigned to the member.
pub fn can_in_space(space_role: &str, roles: &Vec<AssignedRole>, permission: Permission) -> (r:
    bool)
    ensures
        r == allowed_in_space(space_role@, roles@, permission),
{
    if is_admin_role(space_role) {
        return true;
    }
    effective_space_permissions(space_role, roles) & permission.bit() != 0
}

/// The decision of `can_in_channel`, given the roles assigned to the member
/// and the channel overrides that the store returned for them.
pub fn can_in_channel(
    space_role: &str,
    user_id: u128,
    roles: &Vec<AssignedRole>,
    overrides: Vec<ChannelPermissionOverride>,
    permission: Permission,
) -> (r: bool)
    ensures
        r == allowed_in_channel(space_role@, user_id, roles@, overrides@, permission),
{
    if is_admin_role(space_role) {
        return true;
    }
    let effective = effective_space_permissions(space_role, roles);
    let role_ids = role_ids_of(roles);
    let effective = apply_channel_overrides(effective, user_id, &role_ids, overrides);
    effective & permission.bit() != 0
}

/// `Ok(())` when `allowed`, else `Forbidden` (the answer of `require_space`
/// and `require_channel`).
pub fn require_permission(allowed: bool) -> (r: Result<(), PermissionError>)
    ensures
        r == (if allowed {
            Ok(())
        } else {
            Err(PermissionError::Forbidden)
        }),
{
    if allowed {
        Ok(())
    } else {
        Err(PermissionError::Forbidden)
    }
}

/// A role name: white space runs collapsed, 1 to 80 bytes.
pub fn normalize_role_name(name: String) -> (r: Result<String, PermissionError>)
    ensures
        match r {
            Ok(s) => s@ == collapse_ws(name@) && 1 <= utf8_len(collapse_ws(name@)) <= 80,
            Err(e) => !(1 <= utf8_len(collapse_ws(name@)) <= 80) && e == PermissionError::InvalidInput(
                "role name must be between 1 and 80 characters",
            ),
        },
{
    let n = collapse_whitespace(&chars_of(name.as_str()));
    if n.len() >= 1 && utf8_len_at_most(&n, 80) {
        proof {
            crate::text::lemma_utf8_len_bounds(n@);
        }
        Ok(string_of(&n))
    } else {
        proof {
            crate::text::lemma_utf8_len_bounds(n@);
        }
        Err(PermissionError::InvalidInput("role name must be between 1 and 80 characters"))
    }
}

/// A role color: `#` and six hex digits, surrounding white space removed.
pub open spec fn is_hex_color(c: Seq<char>) -> bool {
    &&& c.len() == 7
    &&& c[0] == '#'
    &&& forall|i: int| 1 <= i < 7 ==> is_ascii_hexdigit(#[trigger] c[i])
}

fn all_hex_digits(c: &Vec<char>, from: usize) -> (r: bool)
    ensures
        r == (forall|k: int| from <= k < c.len() ==> is_ascii_hexdigit(#[trigger] c@[k])),
{
    let mut i = from;
    while i < c.len()
        invariant
            from <= i || i >= c.len(),
            forall|k: int| from <= k < i ==> is_ascii_hexdigit(#[trigger] c@[k]),
        decreases c.len() - i,
    {
        let ch = c[i];
        if !(('0' <= ch && ch <= '9') || ('a' <= ch && ch <= 'f') || ('A' <= ch && ch <= 'F')) {
            assert(!is_ascii_hexdigit(c@[i as int]));
            return false;
        }
        i += 1;
    }
    true
}

pub fn normalize_color(color: Option<String>) -> (r: Result<Option<String>, PermissionError>)
    ensures
        match color {
            None => r == Ok::<Option<String>, PermissionError>(None),
            Some(c) => match r {
                Ok(Some(s)) => s@ == trim_seq(c@) && is_hex_color(trim_seq(c@)),
                Ok(None) => false,
                Err(e) => !is_hex_color(trim_seq(c@)) && e == PermissionError::InvalidInput(
                    "role color must be a hex color like #5865f2",
                ),
            },
        },
{
    let color = match color {
        None => return Ok(None),
        Some(c) => c,
    };
    let c = trim(&chars_of(color.as_str()));
    let valid = c.len() == 7 && c[0] == '#' && all_hex_digits(&c, 1);
    if valid {
        Ok(Some(string_of(&c)))
    } else {
        Err(PermissionError::InvalidInput("role color must be a hex color like #5865f2"))
    }
}

/// The bitset named by a list of permission names, or the error of the
/// first name that is not a permission.
pub open spec fn permission_list_bits(names: Seq<Seq<char>>) -> Result<u64, PermissionError>
    decreases names.len(),
{
    if names.len() == 0 {
        Ok(0)
    } else {
        match permission_list_bits(names.drop_last()) {
            Err(e) => Err(e),
            Ok(bits) => match permission_named(permission_key(names.last())) {
                Some(p) => Ok(bits | permission_bit(p)),
                None => Err(PermissionError::InvalidInput("permission name is not supported")),
            },
        }
    }
}

pub fn parse_permission_list(permissions: Vec<String>) -> (r: Result<u64, PermissionError>)
    ensures
        r == permission_list_bits(permissions@.map_values(|s: String| s@)),
{
    let ghost names = permissions@.map_values(|s: String| s@);
    let mut bits: u64 = 0;
    let mut i: usize = 0;
    while i < permissions.len()
        invariant
            i <= permissions.len(),
            names == permissions@.map_values(|s: String| s@),
            permission_list_bits(names.take(i as int)) == Ok::<u64, PermissionError>(bits),
        decreases permissions.len() - i,
    {
        assert(names.take(i as int + 1).drop_last() =~= names.take(i as int));
        assert(names.take(i as int + 1).last() == permissions@[i as int]@);
        match Permission::parse(permissions[i].as_str()) {
            Ok(p) => {
                bits = bits | p.bit();
            },
            Err(e) => {
                proof {
                    lemma_permission_list_error_sticks(names, i as int + 1);
                }
                return Err(e);
            },
        }
        i += 1;
    }
    assert(names.take(permissions.len() as int) =~= names);
    Ok(bits)
}

proof fn lemma_permission_list_error_sticks(names: Seq<Seq<char>>, i: int)
    requires
        0 <= i <= names.len(),
        permission_list_bits(names.take(i)) is Err,
    ensures
        permission_list_bits(names) == permission_list_bits(names.take(i)),
    decreases names.len() - i,
{
    if i < names.len() {
        assert(names.take(i + 1).drop_last() =~= names.take(i));
        lemma_permission_list_error_sticks(names, i + 1);
    } else {
        assert(names.take(i) =~= names);
    }
}

/// A new role of a space, its input validated (`create_role` before the
/// store call). A missing position is 0 and a negative one is raised to 0.
pub fn new_role(
    id: u128,
    organization_id: u128,
    space_id: u128,
    name: String,
    color: Option<String>,
    position: Option<i32>,
    permissions: Vec<String>,
) -> (r: Result<Role, PermissionError>)
    ensures
        match r {
            Ok(role) => {
                &&& role.id == id && role.organization_id == organization_id
                &&& role.space_id == space_id
                &&& role.name@ == collapse_ws(name@)
                &&& 1 <= utf8_len(collapse_ws(name@)) <= 80
                &&& match color {
                    None => role.color is None,
                    Some(c) => role.color is Some && role.color->0@ == trim_seq(c@)
                        && is_hex_color(trim_seq(c@)),
                }
                &&& role.position == (match position {
                    Some(p) => if p < 0 {
                        0
                    } else {
                        p
                    },
                    None => 0,
                })
                &&& permission_list_bits(permissions@.map_values(|s: String| s@)) == Ok::<
                    u64,
                    PermissionError,
                >(role.permissions_bitset)
            },
            Err(e) => {
                ||| !(1 <= utf8_len(collapse_ws(name@)) <= 80) && e == PermissionError::InvalidInput(
                    "role name must be between 1 and 80 characters",
                )
                ||| (1 <= utf8_len(collapse_ws(name@)) <= 80) && color is Some
                    && !is_hex_color(trim_seq(color->0@)) && e == PermissionError::InvalidInput(
                    "role color must be a hex color like #5865f2",
                )
                ||| (1 <= utf8_len(collapse_ws(name@)) <= 80) && (color is Some ==> is_hex_color(
                    trim_seq(color->0@),
                )) && permission_list_bits(permissions@.map_values(|s: String| s@)) == Err::<
                    u64,
                    PermissionError,
                >(e)
            },
        },
{
    let name = normalize_role_name(name)?;
    let color = normalize_color(color)?;
    let position = match position {
        Some(p) => if p < 0 {
            0
        } else {
            p
        },
        None => 0,
    };
    let permissions_bitset = parse_permission_list(permissions)?;
    Ok(Role { id, organization_id, space_id, name, color, position, permissions_bitset })
}

/// A channel override, its permission lists read (`set_channel_override`
/// before the store call).
pub fn new_channel_override(
    channel_id: u128,
    target_kind: PermissionTargetKind,
    target_id: u128,
    allow: Vec<String>,
    deny: Vec<String>,
) -> (r: Result<ChannelPermissionOverride, PermissionError>)
    ensures
        match r {
            Ok(o) => o.channel_id == channel_id && o.target_kind == target_kind && o.target_id
                == target_id && permission_list_bits(allow@.map_values(|s: String| s@)) == Ok::<
                u64,
                PermissionError,
            >(o.allow_bitset) && permission_list_bits(deny@.map_values(|s: String| s@)) == Ok::<
                u64,
                PermissionError,
            >(o.deny_bitset),
            Err(e) => permission_list_bits(allow@.map_values(|s: String| s@)) == Err::<
                u64,
                PermissionError,
            >(e) || (permission_list_bits(allow@.map_values(|s: String| s@)) is Ok
                && permission_list_bits(deny@.map_values(|s: String| s@)) == Err::<
                u64,
                PermissionError,
            >(e)),
        },
{
    let allow_bitset = parse_permission_list(allow)?;
    let deny_bitset = parse_permission_list(deny)?;
    Ok(ChannelPermissionOverride { channel_id, target_kind, target_id, allow_bitset, deny_bitset })
}

/// A role assignment, after the store confirmed (`role_exists`) or denied
/// that the role belongs to the space (`assign_role` before the store call).
pub fn new_role_assignment(
    role_exists: bool,
    space_id: u128,
    role_id: u128,
    user_id: u128,
    assigned_by_user_id: u128,
) -> (r: Result<RoleAssignment, PermissionError>)
    ensures
        r == (if role_exists {
            Ok(RoleAssignment { space_id, role_id, user_id, assigned_by_user_id })
        } else {
            Err(PermissionError::RoleNotFound)
        }),
{
    if !role_exists {
        return Err(PermissionError::RoleNotFound);
    }
    Ok(RoleAssignment { space_id, role_id, user_id, assigned_by_user_id })
}

/// Owners and admins hold every permission in the space and in each of its
/// channels, whatever roles and overrides exist.
pub proof fn law_admin_holds_every_permission(
    space_role: Seq<char>,
    user_id: u128,
    roles: Seq<AssignedRole>,
    overrides: Seq<ChannelPermissionOverride>,
    permission: Permission,
)
    requires
        space_role == "owner"@ || space_role == "admin"@,
    ensures
        allowed_in_space(space_role, roles, permission),
        allowed_in_channel(space_role, user_id, roles, overrides, permission),
{
}

proof fn lemma_member_deny_clears(e: u64, ra: u64, rd: u64, ma: u64, md: u64, b: u64)
    requires
        b == 1 || b == 2 || b == 4 || b == 8 || b == 16 || b == 32 || b == 64,
        md & b != 0,
    ensures
        apply_override_bits(e, ra, rd, ma, md) & b == 0,
{
    assert(((((e & !rd) | (ra & !rd)) & !md) | (ma & !md)) & b == 0) by (bit_vector)
        requires
            b == 1 || b == 2 || b == 4 || b == 8 || b == 16 || b == 32 || b == 64,
            md & b != 0,
    ;
}

proof fn lemma_member_allow_sets(e: u64, ra: u64, rd: u64, ma: u64, md: u64, b: u64)
    requires
        b == 1 || b == 2 || b == 4 || b == 8 || b == 16 || b == 32 || b == 64,
        ma & b != 0,
        md & b == 0,
    ensures
        apply_override_bits(e, ra, rd, ma, md) & b != 0,
{
    assert(((((e & !rd) | (ra & !rd)) & !md) | (ma & !md)) & b != 0) by (bit_vector)
        requires
            b == 1 || b == 2 || b == 4 || b == 8 || b == 16 || b == 32 || b == 64,
            ma & b != 0,
            md & b == 0,
    ;
}

proof fn lemma_role_level(e: u64, ra: u64, rd: u64, b: u64)
    requires
        b == 1 || b == 2 || b == 4 || b == 8 || b == 16 || b == 32 || b == 64,
    ensures
        rd & b != 0 ==> apply_override_bits(e, ra, rd, 0, 0) & b == 0,
        rd & b == 0 && ra & b != 0 ==> apply_override_bits(e, ra, rd, 0, 0) & b != 0,
        rd & b == 0 && ra & b == 0 ==> (apply_override_bits(e, ra, rd, 0, 0) & b != 0 <==> e & b
            != 0),
{
    assert(rd & b != 0 ==> ((((e & !rd) | (ra & !rd)) & !0u64) | (0u64 & !0u64)) & b == 0)
        by (bit_vector)
        requires
            b == 1 || b == 2 || b == 4 || b == 8 || b == 16 || b == 32 || b == 64,
    ;
    assert(rd & b == 0 && ra & b != 0 ==> ((((e & !rd) | (ra & !rd)) & !0u64) | (0u64 & !0u64))
        & b != 0) by (bit_vector)
        requires
            b == 1 || b == 2 || b == 4 || b == 8 || b == 16 || b == 32 || b == 64,
    ;
    assert(rd & b == 0 && ra & b == 0 ==> (((((e & !rd) | (ra & !rd)) & !0u64) | (0u64 & !0u64))
        & b != 0 <==> e & b != 0)) by (bit_vector)
        requires
            b == 1 || b == 2 || b == 4 || b == 8 || b == 16 || b == 32 || b == 64,
    ;
}

/// A member override that denies a permission takes it away in the channel
/// from anyone who is not an owner or admin, whatever their roles allow.
pub proof fn law_member_deny_wins(
    space_role: Seq<char>,
    user_id: u128,
    roles: Seq<AssignedRole>,
    overrides: Seq<ChannelPermissionOverride>,
    permission: Permission,
)
    requires
        !is_admin_role_name(space_role),
        override_bits(overrides, |o: ChannelPermissionOverride| targets_member(o, user_id), false)
            & permission_bit(permission) != 0,
    ensures
        !allowed_in_channel(space_role, user_id, roles, overrides, permission),
{
    let role_ids = roles.map_values(|a: AssignedRole| a.id);
    let role_sel = |o: ChannelPermissionOverride| targets_role(o, role_ids);
    let member_sel = |o: ChannelPermissionOverride| targets_member(o, user_id);
    lemma_member_deny_clears(
        space_permissions_of(space_role, roles),
        override_bits(overrides, role_sel, true),
        override_bits(overrides, role_sel, false),
        override_bits(overrides, member_sel, true),
        override_bits(overrides, member_sel, false),
        permission_bit(permission),
    );
}

/// A member override that allows a permission, and does not also deny it,
/// grants it in the channel whatever role overrides deny.
pub proof fn law_member_allow_wins(
    space_role: Seq<char>,
    user_id: u128,
    roles: Seq<AssignedRole>,
    overrides: Seq<ChannelPermissionOverride>,
    permission: Permission,
)
    requires
        override_bits(overrides, |o: ChannelPermissionOverride| targets_member(o, user_id), true)
            & permission_bit(permission) != 0,
        override_bits(overrides, |o: ChannelPermissionOverride| targets_member(o, user_id), false)
            & permission_bit(permission) == 0,
    ensures
        allowed_in_channel(space_role, user_id, roles, overrides, permission),
{
    let role_ids = roles.map_values(|a: AssignedRole| a.id);
    let role_sel = |o: ChannelPermissionOverride| targets_role(o, role_ids);
    let member_sel = |o: ChannelPermissionOverride| targets_member(o, user_id);
    lemma_member_allow_sets(
        space_permissions_of(space_role, roles),
        override_bits(overrides, role_sel, true),
        override_bits(overrides, role_sel, false),
        override_bits(overrides, member_sel, true),
        override_bits(overrides, member_sel, false),
        permission_bit(permission),
    );
}

proof fn lemma_override_bits_none(
    os: Seq<ChannelPermissionOverride>,
    sel: spec_fn(ChannelPermissionOverride) -> bool,
    allow: bool,
)
    requires
        forall|i: int| 0 <= i < os.len() ==> !sel(#[trigger] os[i]),
    ensures
        override_bits(os, sel, allow) == 0,
    decreases os.len(),
{
    if os.len() > 0 {
        assert(!sel(os[os.len() - 1]));
        lemma_override_bits_none(os.drop_last(), sel, allow);
    }
}

/// Without member overrides, role overrides decide: a role deny removes the
/// permission, else a role allow grants it, else the space permission stands.
pub proof fn law_role_overrides(
    space_role: Seq<char>,
    user_id: u128,
    roles: Seq<AssignedRole>,
    overrides: Seq<ChannelPermissionOverride>,
    permission: Permission,
)
    requires
        !is_admin_role_name(space_role),
        forall|i: int|
            0 <= i < overrides.len() ==> !targets_member(#[trigger] overrides[i], user_id),
    ensures
        ({
            let sel = |o: ChannelPermissionOverride|
                targets_role(o, roles.map_values(|a: AssignedRole| a.id));
            let b = permission_bit(permission);
            let allowed = allowed_in_channel(space_role, user_id, roles, overrides, permission);
            &&& override_bits(overrides, sel, false) & b != 0 ==> !allowed
            &&& override_bits(overrides, sel, false) & b == 0 && override_bits(overrides, sel, true)
                & b != 0 ==> allowed
            &&& override_bits(overrides, sel, false) & b == 0 && override_bits(overrides, sel, true)
                & b == 0 ==> (allowed <==> allowed_in_space(space_role, roles, permission))
        }),
{
    let role_ids = roles.map_values(|a: AssignedRole| a.id);
    let role_sel = |o: ChannelPermissionOverride| targets_role(o, role_ids);
    let member_sel = |o: ChannelPermissionOverride| targets_member(o, user_id);
    lemma_override_bits_none(overrides, member_sel, true);
    lemma_override_bits_none(overrides, member_sel, false);
    lemma_role_level(
        space_permissions_of(space_role, roles),
        override_bits(overrides, role_sel, true),
        override_bits(overrides, role_sel, false),
        permission_bit(permission),
    );
}

/// With no channel overrides, a channel grants exactly what the space grants.
pub proof fn law_no_overrides_channel_is_space(
    space_role: Seq<char>,
    user_id: u128,
    roles: Seq<AssignedRole>,
    permission: Permission,
)
    ensures
        allowed_in_channel(space_role, user_id, roles, seq![], permission) == allowed_in_space(
            space_role,
            roles,
            permission,
        ),
{
    let e = space_permissions_of(space_role, roles);
    let b = permission_bit(permission);
    assert(((((e & !0u64) | (0u64 & !0u64)) & !0u64) | (0u64 & !0u64)) == e) by (bit_vector);
}

/// Reading the name of a permission gives the permission back.
pub proof fn law_permission_name_roundtrip(p: Permission)
    ensures
        permission_named(permission_key(permission_name(p))) == Some(p),
{
    let n = permission_name(p);
    reveal_strlit("VIEW_CHANNEL");
    reveal_strlit("SEND_MESSAGES");
    reveal_strlit("MANAGE_MESSAGES");
    reveal_strlit("MANAGE_CHANNELS");
    reveal_strlit("MANAGE_ROLES");
    reveal_strlit("INVITE_MEMBERS");
    reveal_strlit("MANAGE_SPACE");
    let ws = |c: char| crate::text::is_white_space(c);
    assert(!ws(n[0]));
    assert(crate::text::drop_leading(n, ws) == n);
    assert(!ws(n.last()));
    assert(crate::text::drop_trailing(n, ws) == n);
    assert(upper_seq(n) =~= n);
    match p {
        Permission::ManageChannels => {
            assert(n[7] != "MANAGE_MESSAGES"@[7]);
        },
        Permission::ManageRoles => {
            assert(n[0] != "VIEW_CHANNEL"@[0]);
        },
        Permission::ManageSpace => {
            assert(n[0] != "VIEW_CHANNEL"@[0]);
            assert(n[7] != "MANAGE_ROLES"@[7]);
        },
        _ => {},
    }
}

proof fn lemma_bits_of_or(a: u64, b: u64, x: u64, m: u64)
    ensures
        a & !(a | b) == 0,
        b & !(a | b) == 0,
        x & !a == 0 ==> x & !(a | b) == 0,
        (a | b) & m != 0 ==> a & m != 0 || b & m != 0,
        0u64 & m == 0,
{
    assert(a & !(a | b) == 0 && b & !(a | b) == 0 && (x & !a == 0 ==> x & !(a | b) == 0) && ((a | b) & m != 0
        ==> a & m != 0 || b & m != 0) && 0u64 & m == 0) by (bit_vector);
}

proof fn lemma_assigned_bits(roles: Seq<AssignedRole>, m: u64)
    ensures
        forall|i: int| 0 <= i < roles.len() ==> #[trigger] roles[i].permissions_bitset & !assigned_bits(roles) == 0,
        assigned_bits(roles) & m != 0 ==> exists|i: int| 0 <= i < roles.len() && #[trigger] roles[i].permissions_bitset & m != 0,
    decreases roles.len(),
{
    if roles.len() == 0 {
        lemma_bits_of_or(0, 0, 0, m);
    } else {
        let t = roles.drop_last();
        lemma_assigned_bits(t, m);
        let a = assigned_bits(t);
        let b = roles.last().permissions_bitset;
        lemma_bits_of_or(a, b, 0, m);
        assert forall|i: int| 0 <= i < roles.len() implies #[trigger] roles[i].permissions_bitset & !assigned_bits(roles) == 0 by {
            if i < t.len() {
                assert(t[i] == roles[i]);
                lemma_bits_of_or(a, b, roles[i].permissions_bitset, m);
            }
        }
        if assigned_bits(roles) & m != 0 {
            if a & m != 0 {
                let i = choose|i: int| 0 <= i < t.len() && #[trigger] t[i].permissions_bitset & m != 0;
                assert(t[i] == roles[i]);
            } else {
                assert(roles[roles.len() - 1].permissions_bitset & m != 0);
            }
        }
    }
}

/// A member's permissions in a space are the union of what the space role
/// grants and what every assigned role grants: each of those sets of bits
/// lies within them, and every bit of them comes from the space role or
/// from some assigned role. So a permission that any assigned role grants
/// is allowed in the space.
pub proof fn law_space_permissions_are_the_union(space_role: Seq<char>, roles: Seq<AssignedRole>, m: u64, permission: Permission)
    ensures
        builtin_permissions_of(space_role) & !space_permissions_of(space_role, roles) == 0,
        forall|i: int|
            0 <= i < roles.len() ==> #[trigger] roles[i].permissions_bitset & !space_permissions_of(space_role, roles)
                == 0,
        space_permissions_of(space_role, roles) & m != 0 ==> builtin_permissions_of(space_role) & m != 0 || exists|i: int|
            0 <= i < roles.len() && #[trigger] roles[i].permissions_bitset & m != 0,
        (exists|i: int| 0 <= i < roles.len() && #[trigger] roles[i].permissions_bitset & permission_bit(permission) != 0)
            ==> allowed_in_space(space_role, roles, permission),
{
    let b = builtin_permissions_of(space_role);
    let a = assigned_bits(roles);
    lemma_assigned_bits(roles, m);
    lemma_bits_of_or(b, a, 0, m);
    assert forall|i: int| 0 <= i < roles.len() implies #[trigger] roles[i].permissions_bitset & !space_permissions_of(space_role, roles) == 0 by {
        let x = roles[i].permissions_bitset;
        assert(x & !a == 0);
        assert(x & !(b | a) == 0 ==> x & !(a | b) == 0) by (bit_vector);
        assert(x & !a == 0 ==> x & !(a | b) == 0) by (bit_vector);
        assert((a | b) == (b | a)) by (bit_vector);
    }
    if exists|i: int| 0 <= i < roles.len() && #[trigger] roles[i].permissions_bitset & permission_bit(permission) != 0 {
        let i = choose|i: int| 0 <= i < roles.len() && #[trigger] roles[i].permissions_bitset & permission_bit(permission) != 0;
        let x = roles[i].permissions_bitset;
        let p = permission_bit(permission);
        assert(x & !a == 0);
        assert(x & !a == 0 && x & p != 0 ==> (b | a) & p != 0) by (bit_vector);
    }
}

/// What each space role grants before any assigned role: owners and admins
/// every permission, members viewing channels and sending messages, guests
/// viewing channels, any other role nothing.
pub proof fn law_space_role_grants(space_role: Seq<char>)
    ensures
        space_role == "owner"@ || space_role == "admin"@ ==> builtin_permissions_of(space_role) == ALL_MINIMAL_PERMISSIONS,
        space_role == "member"@ ==> builtin_permissions_of(space_role) == VIEW_CHANNEL | SEND_MESSAGES,
        space_role == "guest"@ ==> builtin_permissions_of(space_role) == VIEW_CHANNEL,
        space_role != "owner"@ && space_role != "admin"@ && space_role != "member"@ && space_role != "guest"@
            ==> builtin_permissions_of(space_role) == 0,
{
    reveal_strlit("owner");
    reveal_strlit("admin");
    reveal_strlit("member");
    reveal_strlit("guest");
    assert("member"@ != "owner"@ && "member"@ != "admin"@) by {
        assert("member"@.len() == 6 && "owner"@.len() == 5 && "admin"@.len() == 5);
    }
    assert("guest"@ != "owner"@ && "guest"@ != "admin"@ && "guest"@ != "member"@) by {
        assert("guest"@[0] == 'g' && "owner"@[0] == 'o' && "admin"@[0] == 'a' && "member"@[0] == 'm');
    }
}

} // verus!
