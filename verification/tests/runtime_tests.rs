use opencord::domain::bot::AuthenticatedBot;
use opencord::domain::compat_gateway::{CompatGatewayResumeResult, CompatGatewaySessions};
use opencord::domain::json::JsonValue;
use opencord::domain::metrics::{escape_label_value, MediaMetrics};
use opencord::domain::realtime::RealtimeEvent;
use opencord::events::{topic_for_event_type, EventEnvelope, KafkaTopic};

const ORG: u128 = 0x0190_0000_0000_7000_8000_0000_0000_0001;

fn bot() -> AuthenticatedBot {
    AuthenticatedBot { application_id: 1, organization_id: 2, bot_user_id: 3 }
}

#[test]
fn gateway_sessions_resume_for_their_bot() {
    let mut sessions = CompatGatewaySessions::new();
    let created = sessions.create("s1".to_string(), &bot(), 5, 513);
    assert_eq!(created.sequence, 5);
    assert_eq!(sessions.resume("s1", &bot(), 4), CompatGatewayResumeResult::Resumed(created.clone()));
    assert_eq!(sessions.resume("s1", &bot(), 6), CompatGatewayResumeResult::InvalidSequence);
    let stranger = AuthenticatedBot { application_id: 9, ..bot() };
    assert_eq!(sessions.resume("s1", &stranger, 1), CompatGatewayResumeResult::NotFound);
    assert_eq!(sessions.resume("nope", &bot(), 1), CompatGatewayResumeResult::NotFound);
}

#[test]
fn gateway_sequences_never_decrease() {
    let mut sessions = CompatGatewaySessions::new();
    sessions.create("s1".to_string(), &bot(), 5, 0);
    sessions.update_sequence("s1", 3);
    assert!(matches!(sessions.resume("s1", &bot(), 5), CompatGatewayResumeResult::Resumed(s) if s.sequence == 5));
    sessions.update_sequence("s1", 9);
    assert!(matches!(sessions.resume("s1", &bot(), 9), CompatGatewayResumeResult::Resumed(s) if s.sequence == 9));
    sessions.create("s1".to_string(), &bot(), 1, 0);
    assert_eq!(sessions.resume("s1", &bot(), 2), CompatGatewayResumeResult::InvalidSequence);
}

#[test]
fn metrics_render_in_key_order() {
    let mut m = MediaMetrics::new();
    m.record_voice_join_success();
    m.record_voice_join_success();
    m.record_voice_join_failure("token");
    m.record_voice_join_failure("auth");
    m.record_voice_join_failure("token");
    m.record_voice_participant_joined(ORG, 2, 3, 10);
    m.record_voice_participant_joined(ORG, 2, 3, 11);
    m.record_voice_participant_joined(ORG, 2, 3, 10);
    m.record_voice_participant_joined(1, 2, 3, 10);
    let text = m.render_prometheus();
    let expected = "# HELP opencord_media_voice_join_success_total Successful voice channel joins.\n\
# TYPE opencord_media_voice_join_success_total counter\n\
opencord_media_voice_join_success_total 2\n\
# HELP opencord_media_voice_join_failures_total Failed voice channel joins.\n\
# TYPE opencord_media_voice_join_failures_total counter\n\
opencord_media_voice_join_failures_total{reason=\"auth\"} 1\n\
opencord_media_voice_join_failures_total{reason=\"token\"} 2\n\
# HELP opencord_media_voice_participants_current Process-known voice participants by channel.\n\
# TYPE opencord_media_voice_participants_current gauge\n\
opencord_media_voice_participants_current{organization_id=\"00000000-0000-0000-0000-000000000001\",space_id=\"00000000-0000-0000-0000-000000000002\",channel_id=\"00000000-0000-0000-0000-000000000003\"} 1\n\
opencord_media_voice_participants_current{organization_id=\"01900000-0000-7000-8000-000000000001\",space_id=\"00000000-0000-0000-0000-000000000002\",channel_id=\"00000000-0000-0000-0000-000000000003\"} 2\n";
    assert_eq!(text, expected);
}

#[test]
fn label_values_are_escaped() {
    assert_eq!(escape_label_value("a\\b\n\"c\""), "a\\\\b\\n\\\"c\\\"");
}

#[test]
fn topics_follow_event_types() {
    assert_eq!(topic_for_event_type("message.created"), KafkaTopic::ChatEventsV1);
    assert_eq!(topic_for_event_type("channel.created"), KafkaTopic::RealtimeEventsV1);
    assert_eq!(KafkaTopic::DeadLetterV1.as_str(), "opencord.dlq.v1");
    assert_eq!(KafkaTopic::UsageJobsV1.as_str(), "opencord.jobs.usage.v1");
}

#[test]
fn envelopes_carry_topic_and_idempotency_key() {
    let e = EventEnvelope::for_tenant_at(
        ORG,
        (1_782_892_800, 0),
        "message.created".to_string(),
        "org-1".to_string(),
        "channel-1".to_string(),
        "m-1".to_string(),
        JsonValue::Null,
    );
    assert_eq!(e.event_id, "evt_01900000-0000-7000-8000-000000000001");
    assert_eq!(e.topic, "opencord.events.chat.v1");
    assert_eq!(e.idempotency_key, "message.created:m-1");
    assert_eq!(e.schema_version, 1);
    let traced = e.with_trace_context(&"00-abc-def-01".to_string());
    assert_eq!(traced.traceparent, Some("00-abc-def-01".to_string()));
    let now = EventEnvelope::for_tenant(
        "space.updated".to_string(),
        "o".to_string(),
        "p".to_string(),
        "s".to_string(),
        JsonValue::Null,
    );
    assert!(now.event_id.starts_with("evt_"));
    assert_eq!(now.topic, "opencord.events.realtime.v1");
}

#[test]
fn realtime_events_name_their_scope() {
    let e = RealtimeEvent::channel_at(ORG, (1_782_892_800, 0), "message.created", 1, 2, 3, JsonValue::Bool(true));
    assert_eq!(e.id, "evt_01900000-0000-7000-8000-000000000001");
    assert_eq!(e.occurred_at, "2026-07-01T08:00:00.000Z");
    assert_eq!(e.scope.channel_id, Some("00000000-0000-0000-0000-000000000003".to_string()));
    let s = RealtimeEvent::space("space.updated", 1, 2, JsonValue::Null);
    assert_eq!(s.scope.channel_id, None);
    assert_eq!(s.scope.space_id, Some("00000000-0000-0000-0000-000000000002".to_string()));
}

#[test]
fn failure_counts_stop_at_the_largest_count() {
    let mut m = MediaMetrics::default();
    assert!(m.try_record_voice_join_failure("timeout"));
    assert_eq!(m.voice_join_failures_total, vec![("timeout".to_string(), 1)]);
    m.voice_join_failures_total[0].1 = u64::MAX;
    assert!(!m.try_record_voice_join_failure("timeout"));
    assert_eq!(m.voice_join_failures_total[0].1, u64::MAX);
    assert!(m.try_record_voice_join_failure("denied"));
    assert_eq!(m.voice_join_failures_total[0], ("denied".to_string(), 1));
}
