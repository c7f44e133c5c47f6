use base64::engine::general_purpose::URL_SAFE_NO_PAD;
use base64::Engine;
use hmac::{Hmac, Mac};
use opencord::domain::media::{
    room_name, trim_url, IssueMediaRoomToken, MediaControlConfig, MediaControlService, MediaError, MediaRoomType,
    MediaTokenGrants,
};
use serde_json::Value;
use sha2::Sha256;

const CHANNEL: u128 = 0x0190_0000_0000_7000_8000_0000_0000_0002;

fn config() -> MediaControlConfig {
    MediaControlConfig::from_env_values(
        Some(" wss://media.example.com/// ".to_string()),
        Some("key\"1".to_string()),
        Some("s3cret".to_string()),
        Some("30".to_string()),
        None,
    )
}

fn request(grants: MediaTokenGrants) -> IssueMediaRoomToken {
    IssueMediaRoomToken {
        room_type: MediaRoomType::VoiceChannel,
        organization_id: 1,
        space_id: 2,
        channel_id: CHANNEL,
        participant_user_id: 3,
        grants,
    }
}

fn s(v: &str) -> Value {
    Value::String(v.to_string())
}

#[test]
fn configuration_defaults_and_clamps() {
    let c = config();
    assert_eq!(c.provider, "livekit");
    assert_eq!(c.livekit_url, "wss://media.example.com");
    assert_eq!(c.livekit_api_key, "key\"1");
    assert_eq!(c.token_ttl_seconds, 60);
    assert_eq!(c.region, "local");
    let d = MediaControlConfig::from_env_values(None, Some("  ".to_string()), None, Some("99999".to_string()), Some(" eu ".to_string()));
    assert_eq!(d.livekit_url, "ws://localhost:7880");
    assert_eq!(d.livekit_api_key, "devkey");
    assert_eq!(d.livekit_api_secret, "secret");
    assert_eq!(d.token_ttl_seconds, 3600);
    assert_eq!(d.region, "eu");
    let e = MediaControlConfig::from_env_values(None, None, None, Some("ten".to_string()), None);
    assert_eq!(e.token_ttl_seconds, 600);
    let ttl = |v: &str| MediaControlConfig::from_env_values(None, None, None, Some(v.to_string()), None).token_ttl_seconds;
    assert_eq!(ttl("+120"), 120);
    assert_eq!(ttl("-5"), 60);
    assert_eq!(ttl(" 120"), 600);
    assert_eq!(ttl("-"), 600);
    assert_eq!(ttl("9223372036854775807"), 3600);
    assert_eq!(ttl("9223372036854775808"), 600);
    assert_eq!(ttl("-9223372036854775808"), 60);
    assert_eq!(ttl("-9223372036854775809"), 600);
    assert_eq!(trim_url("  / ".to_string()), "ws://localhost:7880");
}

#[test]
fn room_types_and_grants() {
    assert_eq!(MediaRoomType::parse(" Voice_Channel ").unwrap(), MediaRoomType::VoiceChannel);
    assert_eq!(
        MediaRoomType::parse("stage").unwrap_err(),
        MediaError::InvalidInput("media room_type must be voice_channel")
    );
    let none = MediaTokenGrants { can_publish_audio: false, can_publish_video: false, can_publish_screen: false, can_subscribe: false };
    assert!(none.validate().is_err());
    let screen = MediaTokenGrants { can_publish_audio: true, can_publish_video: false, can_publish_screen: true, can_subscribe: false };
    assert_eq!(screen.publish_sources(), vec!["microphone", "screen_share", "screen_share_audio"]);
    assert!(screen.can_publish());
    assert_eq!(room_name(MediaRoomType::VoiceChannel, CHANNEL), "opencord_voice_01900000000070008000000000000002");
}

#[test]
fn room_tokens_are_signed_jwts() {
    let service = MediaControlService::new(config());
    let grants = MediaTokenGrants { can_publish_audio: true, can_publish_video: true, can_publish_screen: false, can_subscribe: true };
    let token = service.issue_room_token_at(request(grants), (1_782_892_800, 5)).unwrap();
    assert_eq!(token.expires_at, 1_782_892_860);
    assert_eq!(token.expires_at_nanos, 5);
    assert_eq!(token.participant_identity, "00000000-0000-0000-0000-000000000003");
    assert_eq!(token.server_url, "wss://media.example.com");

    let mut video = serde_json::Map::new();
    video.insert("room".to_string(), s("opencord_voice_01900000000070008000000000000002"));
    video.insert("roomJoin".to_string(), Value::Bool(true));
    video.insert("canPublish".to_string(), Value::Bool(true));
    video.insert("canPublishData".to_string(), Value::Bool(true));
    video.insert("canSubscribe".to_string(), Value::Bool(true));
    video.insert("canPublishSources".to_string(), Value::Array(vec![s("microphone"), s("camera")]));
    let mut attributes = serde_json::Map::new();
    attributes.insert("opencord.organization_id".to_string(), s("00000000-0000-0000-0000-000000000001"));
    attributes.insert("opencord.space_id".to_string(), s("00000000-0000-0000-0000-000000000002"));
    attributes.insert("opencord.channel_id".to_string(), s("01900000-0000-7000-8000-000000000002"));
    attributes.insert("opencord.room_type".to_string(), s("voice_channel"));
    let mut payload = serde_json::Map::new();
    payload.insert("iss".to_string(), s("key\"1"));
    payload.insert("sub".to_string(), s("00000000-0000-0000-0000-000000000003"));
    payload.insert("nbf".to_string(), Value::from(1_782_892_800i64));
    payload.insert("exp".to_string(), Value::from(1_782_892_860i64));
    payload.insert("video".to_string(), Value::Object(video));
    payload.insert("metadata".to_string(), s(""));
    payload.insert("attributes".to_string(), Value::Object(attributes));
    let mut header = serde_json::Map::new();
    header.insert("alg".to_string(), s("HS256"));
    header.insert("typ".to_string(), s("JWT"));

    let header = URL_SAFE_NO_PAD.encode(serde_json::to_vec(&Value::Object(header)).unwrap());
    let payload = URL_SAFE_NO_PAD.encode(serde_json::to_vec(&Value::Object(payload)).unwrap());
    let input = format!("{header}.{payload}");
    let mut mac = <Hmac<Sha256> as Mac>::new_from_slice(b"s3cret").unwrap();
    mac.update(input.as_bytes());
    let signature = URL_SAFE_NO_PAD.encode(mac.finalize().into_bytes());
    assert_eq!(token.participant_token, format!("{input}.{signature}"));
    assert!(token.participant_token.starts_with("eyJhbGciOiJIUzI1NiIsInR5cCI6IkpXVCJ9."));
}

#[test]
fn tokens_need_some_grant() {
    let service = MediaControlService::new(config());
    let none = MediaTokenGrants { can_publish_audio: false, can_publish_video: false, can_publish_screen: false, can_subscribe: false };
    assert_eq!(
        service.issue_room_token(request(none)).unwrap_err(),
        MediaError::InvalidInput("media token must allow subscribing or at least one publish source")
    );
    let listen = MediaTokenGrants { can_publish_audio: false, can_publish_video: false, can_publish_screen: false, can_subscribe: true };
    let t = service.issue_room_token(request(listen)).unwrap();
    assert_eq!(t.room_name, "opencord_voice_01900000000070008000000000000002");
    assert_eq!(MediaError::SigningFailed.code(), "media_token_signing_failed");
}

#[test]
fn a_zero_lifetime_token_is_issued() {
    let mut c = config();
    c.token_ttl_seconds = 0;
    let service = MediaControlService::new(c);
    let listen = MediaTokenGrants { can_publish_audio: false, can_publish_video: false, can_publish_screen: false, can_subscribe: true };
    let t = service.issue_room_token(request(listen)).unwrap();
    assert!(t.expires_at > 1_700_000_000);
}
