use opencord::domain::channel::{self, apply_patch, new_channel, ChannelError, ChannelPatch};
use opencord::domain::organization::{self, normalize_host_header, normalize_hostname, OrganizationError};
use opencord::domain::space;

#[test]
fn channel_slugs_join_words_with_dashes() {
    assert_eq!(channel::slugify("  General Chat!! ").unwrap(), "general-chat");
    assert_eq!(channel::slugify("Ünïcode & Café").unwrap(), "n-code-caf");
    let err = channel::slugify("!!!").unwrap_err();
    assert_eq!(err, ChannelError::InvalidInput("channel name must include letters or numbers"));
    assert_eq!(err.status_code(), 400);
}

#[test]
fn new_channel_normalizes_name_and_topic() {
    let c = new_channel(1, 2, 3, "  Release   Planning ".to_string(), Some("  ship it  ".to_string()), false).unwrap();
    assert_eq!(c.name, "Release Planning");
    assert_eq!(c.slug, "release-planning");
    assert_eq!(c.topic, Some("ship it".to_string()));
    assert_eq!(c.kind, "text");
    assert!(!c.is_private);
    assert!(new_channel(1, 2, 3, "   ".to_string(), None, false).is_err());
}

#[test]
fn channel_patch_keeps_what_it_does_not_name() {
    let c = new_channel(1, 2, 3, "alpha".to_string(), None, false).unwrap();
    let patched = apply_patch(c.clone(), ChannelPatch { name: Some("Beta Room".to_string()), ..ChannelPatch::default() }).unwrap();
    assert_eq!(patched.name, "Beta Room");
    assert_eq!(patched.slug, "beta-room");
    assert_eq!(patched.position, c.position);
    assert_eq!(patched.is_private, c.is_private);
}

#[test]
fn space_slugs_and_names() {
    assert_eq!(space::slugify("Design Team").unwrap(), "design-team");
    assert!(space::normalize_name("   ".to_string()).is_err());
    let created = space::new_space(9, 8, 7, "  Design   Team ".to_string()).unwrap();
    assert_eq!(created.space.name, "Design Team");
    assert_eq!(created.space.slug, "design-team");
}

#[test]
fn hostnames_are_fully_qualified() {
    assert_eq!(normalize_hostname(" Chat.Example.COM. ".to_string()).unwrap(), "chat.example.com");
    let bad = OrganizationError::InvalidInput("custom domain hostname must be a valid fully qualified hostname");
    assert_eq!(normalize_hostname("localhost".to_string()).unwrap_err(), bad);
    assert_eq!(normalize_hostname("-bad.example.com".to_string()).unwrap_err(), bad);
    assert_eq!(normalize_hostname("a..b".to_string()).unwrap_err(), bad);
}

#[test]
fn host_headers_lose_their_port() {
    assert_eq!(normalize_host_header("chat.example.com:8443".to_string()).unwrap(), "chat.example.com");
    assert_eq!(normalize_host_header("chat.example.com".to_string()).unwrap(), "chat.example.com");
    assert_eq!(
        normalize_host_header("   ".to_string()).unwrap_err(),
        OrganizationError::InvalidInput("host header is required")
    );
}

#[test]
fn organization_slug_and_errors() {
    assert_eq!(organization::slugify("Acme Corp").unwrap(), "acme-corp");
    assert_eq!(OrganizationError::NotFound.status_code(), 404);
    assert_eq!(OrganizationError::Forbidden.code(), "forbidden");
}

#[test]
fn prefixed_ids_use_hyphenated_lowercase_uuids() {
    let id = opencord::domain::ids::prefixed_id_for("  msg ", 0x67e5504410b1426f9247bb680e5fe0c8);
    assert_eq!(id, "msg_67e55044-10b1-426f-9247-bb680e5fe0c8");
}

#[test]
fn new_ids_are_version_seven() {
    let id = opencord::domain::ids::new_uuid_v7();
    assert_eq!((id >> 76) & 0xf, 7);
    assert_eq!((id >> 62) & 0x3, 2);
}

#[test]
fn slugs_are_their_own_slugs() {
    for name in ["  General Chat!! ", "Design--Team", "a_b c", "Q3 Roadmap (draft)"] {
        let once = channel::slugify(name).unwrap();
        assert_eq!(channel::slugify(&once).unwrap(), once);
    }
    assert_eq!(channel::slugify("--- ***").unwrap_err(), channel::slugify("!!!").unwrap_err());
    assert_eq!(channel::slugify("\u{212A}elvin").unwrap(), "kelvin");
}
