use opencord::domain::permission::{
    apply_channel_overrides, builtin_permissions_for_role, can_in_channel, can_in_space, effective_space_permissions,
    is_admin_role, normalize_color, normalize_role_name, parse_permission_list, permission_names, require_permission,
    AssignedRole, ChannelPermissionOverride, Permission, PermissionError, PermissionTargetKind, ALL_MINIMAL_PERMISSIONS,
    MANAGE_CHANNELS, SEND_MESSAGES, VIEW_CHANNEL,
};

fn role(id: u128, bits: u64) -> AssignedRole {
    AssignedRole { id, permissions_bitset: bits }
}

fn member_override(target: u128, allow: u64, deny: u64) -> ChannelPermissionOverride {
    ChannelPermissionOverride {
        channel_id: 7,
        target_kind: PermissionTargetKind::Member,
        target_id: target,
        allow_bitset: allow,
        deny_bitset: deny,
    }
}

fn role_override(target: u128, allow: u64, deny: u64) -> ChannelPermissionOverride {
    ChannelPermissionOverride {
        channel_id: 7,
        target_kind: PermissionTargetKind::Role,
        target_id: target,
        allow_bitset: allow,
        deny_bitset: deny,
    }
}

#[test]
fn builtin_roles_grant_their_bits() {
    assert_eq!(builtin_permissions_for_role("owner"), ALL_MINIMAL_PERMISSIONS);
    assert_eq!(builtin_permissions_for_role("admin"), ALL_MINIMAL_PERMISSIONS);
    assert_eq!(builtin_permissions_for_role("member"), VIEW_CHANNEL | SEND_MESSAGES);
    assert_eq!(builtin_permissions_for_role("guest"), VIEW_CHANNEL);
    assert_eq!(builtin_permissions_for_role("visitor"), 0);
    assert!(is_admin_role("owner"));
    assert!(!is_admin_role("member"));
}

#[test]
fn admin_holds_every_permission_despite_overrides() {
    let overrides = vec![member_override(1, 0, ALL_MINIMAL_PERMISSIONS)];
    assert!(can_in_channel("admin", 1, &vec![], overrides, Permission::ManageSpace));
}

#[test]
fn member_deny_wins_over_role_allow() {
    let roles = vec![role(10, 0)];
    let overrides = vec![role_override(10, MANAGE_CHANNELS, 0), member_override(1, 0, MANAGE_CHANNELS)];
    assert!(!can_in_channel("member", 1, &roles, overrides, Permission::ManageChannels));
}

#[test]
fn member_allow_wins_over_role_deny() {
    let roles = vec![role(10, 0)];
    let overrides = vec![role_override(10, 0, SEND_MESSAGES), member_override(1, SEND_MESSAGES, 0)];
    assert!(can_in_channel("member", 1, &roles, overrides, Permission::SendMessages));
}

#[test]
fn role_override_applies_only_to_members_with_the_role() {
    let overrides = vec![role_override(99, 0, SEND_MESSAGES)];
    let applied = apply_channel_overrides(VIEW_CHANNEL | SEND_MESSAGES, 1, &vec![10], overrides);
    assert_eq!(applied, VIEW_CHANNEL | SEND_MESSAGES);
    let overrides = vec![role_override(10, 0, SEND_MESSAGES)];
    let applied = apply_channel_overrides(VIEW_CHANNEL | SEND_MESSAGES, 1, &vec![10], overrides);
    assert_eq!(applied, VIEW_CHANNEL);
}

#[test]
fn channel_without_overrides_follows_space() {
    let roles = vec![role(3, MANAGE_CHANNELS)];
    assert_eq!(effective_space_permissions("member", &roles), VIEW_CHANNEL | SEND_MESSAGES | MANAGE_CHANNELS);
    assert!(can_in_space("member", &roles, Permission::ManageChannels));
    assert!(can_in_channel("member", 1, &roles, vec![], Permission::ManageChannels));
    assert!(!can_in_space("guest", &vec![], Permission::SendMessages));
}

#[test]
fn permission_names_round_trip() {
    assert_eq!(permission_names(VIEW_CHANNEL | MANAGE_CHANNELS), vec!["VIEW_CHANNEL", "MANAGE_CHANNELS"]);
    assert_eq!(Permission::parse(" manage_channels ").unwrap(), Permission::ManageChannels);
    assert_eq!(Permission::ManageChannels.as_str(), "MANAGE_CHANNELS");
    assert_eq!(Permission::ManageChannels.bit(), MANAGE_CHANNELS);
}

#[test]
fn unknown_permission_is_refused() {
    let err = Permission::parse("FLY").unwrap_err();
    assert_eq!(err.code(), "invalid_request");
    assert_eq!(err.status_code(), 400);
    assert!(parse_permission_list(vec!["VIEW_CHANNEL".to_string(), "nope".to_string()]).is_err());
    assert_eq!(
        parse_permission_list(vec!["view_channel".to_string(), "SEND_MESSAGES".to_string()]).unwrap(),
        VIEW_CHANNEL | SEND_MESSAGES
    );
}

#[test]
fn forbidden_when_not_allowed() {
    assert!(require_permission(true).is_ok());
    let err = require_permission(false).unwrap_err();
    assert_eq!(err, PermissionError::Forbidden);
    assert_eq!(err.status_code(), 403);
}

#[test]
fn role_names_and_colors_are_checked() {
    assert_eq!(normalize_role_name("  Mods   team ".to_string()).unwrap(), "Mods team");
    assert!(normalize_role_name("   ".to_string()).is_err());
    assert_eq!(normalize_color(Some(" #A1B2c3 ".to_string())).unwrap(), Some("#A1B2c3".to_string()));
    assert!(normalize_color(Some("red".to_string())).is_err());
    assert_eq!(normalize_color(None).unwrap(), None);
}

#[test]
fn target_kinds_parse() {
    assert_eq!(PermissionTargetKind::parse("role").unwrap(), PermissionTargetKind::Role);
    assert_eq!(PermissionTargetKind::Member.as_str(), "member");
    assert!(PermissionTargetKind::parse("group").is_err());
}
