//! Event envelopes and the Kafka topics they are published to.
use vstd::prelude::*;

use crate::domain::ids::{new_uuid_v7, uuid_bytes, uuid_hyphenated, uuid_to_string};
use crate::domain::json::JsonValue;
use crate::text::{chars_of, push_str, starts_with, starts_with_str, string_of};
use crate::time::{chrono_representable, now_utc};

verus! {

#[derive(Clone, Copy, Debug, PartialEq, Eq, Structural)]
pub enum KafkaTopic {
    ChatEventsV1,
    RealtimeEventsV1,
    NotificationJobsV1,
    WebhookJobsV1,
    CalendarJobsV1,
    SearchJobsV1,
    ExportJobsV1,
    RetentionJobsV1,
    MediaJobsV1,
    UsageJobsV1,
    DeadLetterV1,
}

/// The name of a topic.
pub open spec fn topic_name(t: KafkaTopic) -> Seq<char> {
    match t {
        KafkaTopic::ChatEventsV1 => "opencord.events.chat.v1"@,
        KafkaTopic::RealtimeEventsV1 => "opencord.events.realtime.v1"@,
        KafkaTopic::NotificationJobsV1 => "opencord.jobs.notifications.v1"@,
        KafkaTopic::WebhookJobsV1 => "opencord.jobs.webhooks.v1"@,
        KafkaTopic::CalendarJobsV1 => "opencord.jobs.calendar.v1"@,
        KafkaTopic::SearchJobsV1 => "opencord.jobs.search.v1"@,
        KafkaTopic::ExportJobsV1 => "opencord.jobs.exports.v1"@,
        KafkaTopic::RetentionJobsV1 => "opencord.jobs.retention.v1"@,
        KafkaTopic::MediaJobsV1 => "opencord.jobs.media.v1"@,
        KafkaTopic::UsageJobsV1 => "opencord.jobs.usage.v1"@,
        KafkaTopic::DeadLetterV1 => "opencord.dlq.v1"@,
    }
}

impl KafkaTopic {
    pub fn as_str(self) -> (r: &'static str)
        ensures
            r@ == topic_name(self),
    {
        match self {
            KafkaTopic::ChatEventsV1 => "opencord.events.chat.v1",
            KafkaTopic::RealtimeEventsV1 => "opencord.events.realtime.v1",
            KafkaTopic::NotificationJobsV1 => "opencord.jobs.notifications.v1",
            KafkaTopic::WebhookJobsV1 => "opencord.jobs.webhooks.v1",
            KafkaTopic::CalendarJobsV1 => "opencord.jobs.calendar.v1",
            KafkaTopic::SearchJobsV1 => "opencord.jobs.search.v1",
            KafkaTopic::ExportJobsV1 => "opencord.jobs.exports.v1",
            KafkaTopic::RetentionJobsV1 => "opencord.jobs.retention.v1",
            KafkaTopic::MediaJobsV1 => "opencord.jobs.media.v1",
            KafkaTopic::UsageJobsV1 => "opencord.jobs.usage.v1",
            KafkaTopic::DeadLetterV1 => "opencord.dlq.v1",
        }
    }
}

/// The length of a topic's name and its characters at positions 9 and
/// 14 (a space where the name is shorter): enough to tell the names apart.
spec fn topic_signature(t: KafkaTopic) -> (int, char, char) {
    match t {
        KafkaTopic::ChatEventsV1 => (23, 'e', 's'),
        KafkaTopic::RealtimeEventsV1 => (27, 'e', 's'),
        KafkaTopic::NotificationJobsV1 => (30, 'j', 'n'),
        KafkaTopic::WebhookJobsV1 => (25, 'j', 'w'),
        KafkaTopic::CalendarJobsV1 => (25, 'j', 'c'),
        KafkaTopic::SearchJobsV1 => (23, 'j', 's'),
        KafkaTopic::ExportJobsV1 => (24, 'j', 'e'),
        KafkaTopic::RetentionJobsV1 => (26, 'j', 'r'),
        KafkaTopic::MediaJobsV1 => (22, 'j', 'm'),
        KafkaTopic::UsageJobsV1 => (22, 'j', 'u'),
        KafkaTopic::DeadLetterV1 => (15, 'd', '1'),
    }
}

proof fn lemma_topic_signature(t: KafkaTopic)
    ensures
        topic_name(t).len() == topic_signature(t).0,
        topic_name(t)[9] == topic_signature(t).1,
        topic_name(t)[14] == topic_signature(t).2,
        starts_with(topic_name(t), "opencord."@),
{
    reveal_strlit("opencord.");
    reveal_strlit("opencord.events.chat.v1");
    reveal_strlit("opencord.events.realtime.v1");
    reveal_strlit("opencord.jobs.notifications.v1");
    reveal_strlit("opencord.jobs.webhooks.v1");
    reveal_strlit("opencord.jobs.calendar.v1");
    reveal_strlit("opencord.jobs.search.v1");
    reveal_strlit("opencord.jobs.exports.v1");
    reveal_strlit("opencord.jobs.retention.v1");
    reveal_strlit("opencord.jobs.media.v1");
    reveal_strlit("opencord.jobs.usage.v1");
    reveal_strlit("opencord.dlq.v1");
    assert(topic_name(t).subrange(0, 9) =~= "opencord."@);
}

/// Each topic has its own name, and every name starts with `opencord.`.
pub proof fn law_topic_names_distinct(t: KafkaTopic, u: KafkaTopic)
    ensures
        t != u ==> topic_name(t) != topic_name(u),
        starts_with(topic_name(t), "opencord."@),
{
    lemma_topic_signature(t);
    lemma_topic_signature(u);
}

/// Message events go to the chat topic, every other event to the realtime
/// topic.
pub open spec fn topic_for(event_type: Seq<char>) -> KafkaTopic {
    if starts_with(event_type, "message."@) {
        KafkaTopic::ChatEventsV1
    } else {
        KafkaTopic::RealtimeEventsV1
    }
}

pub fn topic_for_event_type(event_type: &str) -> (r: KafkaTopic)
    ensures
        r == topic_for(event_type@),
{
    if starts_with_str(&chars_of(event_type), "message.") {
        KafkaTopic::ChatEventsV1
    } else {
        KafkaTopic::RealtimeEventsV1
    }
}

/// An event as published: `occurred_at` is an instant (seconds since the
/// epoch and nanoseconds, in `occurred_at_nanos`).
#[derive(Debug)]
pub struct EventEnvelope {
    pub event_id: String,
    pub topic: String,
    pub event_type: String,
    pub schema_version: u16,
    pub organization_id: String,
    pub partition_key: String,
    pub occurred_at: i64,
    pub occurred_at_nanos: u32,
    pub traceparent: Option<String>,
    pub idempotency_key: String,
    pub payload: JsonValue,
}

impl EventEnvelope {
    /// The envelope of a tenant's event with the given id, at the given
    /// instant: its topic follows from its type, and its idempotency key is
    /// the type, `:` and the subject.
    pub fn for_tenant_at(
        id: u128,
        occurred_at: (i64, u32),
        event_type: String,
        organization_id: String,
        partition_key: String,
        idempotency_subject: String,
        payload: JsonValue,
    ) -> (r: EventEnvelope)
        ensures
            r.event_id@ == "evt_"@ + uuid_hyphenated(id),
            r.topic@ == topic_name(topic_for(event_type@)),
            r.event_type@ == event_type@,
            r.schema_version == 1,
            r.organization_id@ == organization_id@,
            r.partition_key@ == partition_key@,
            r.occurred_at == occurred_at.0 && r.occurred_at_nanos == occurred_at.1,
            r.traceparent is None,
            r.idempotency_key@ == event_type@ + ":"@ + idempotency_subject@,
            r.payload == payload,
    {
        let mut event_id = chars_of("evt_");
        push_str(&mut event_id, uuid_to_string(id).as_str());
        let topic = topic_for_event_type(event_type.as_str());
        let mut key = chars_of(event_type.as_str());
        push_str(&mut key, ":");
        push_str(&mut key, idempotency_subject.as_str());
        EventEnvelope {
            event_id: string_of(&event_id),
            topic: string_of(&chars_of(topic.as_str())),
            event_type,
            schema_version: 1,
            organization_id,
            partition_key,
            occurred_at: occurred_at.0,
            occurred_at_nanos: occurred_at.1,
            traceparent: None,
            idempotency_key: string_of(&key),
            payload,
        }
    }

    /// A new envelope of a tenant's event, now.
    pub fn for_tenant(
        event_type: String,
        organization_id: String,
        partition_key: String,
        idempotency_subject: String,
        payload: JsonValue,
    ) -> (r: EventEnvelope)
        ensures
            exists|id: u128|
                r.event_id@ == "evt_"@ + #[trigger] uuid_hyphenated(id) && uuid_bytes(id)[6] / 16 == 7
                    && uuid_bytes(id)[8] / 64 == 2,
            r.topic@ == topic_name(topic_for(event_type@)),
            r.event_type@ == event_type@,
            r.schema_version == 1,
            r.organization_id@ == organization_id@,
            r.partition_key@ == partition_key@,
            chrono_representable(r.occurred_at, r.occurred_at_nanos) && r.occurred_at_nanos < 1_000_000_000,
            r.idempotency_key@ == event_type@ + ":"@ + idempotency_subject@,
            r.traceparent is None,
            r.payload == payload,
    {
        let id = new_uuid_v7();
        let at = now_utc();
        EventEnvelope::for_tenant_at(id, at, event_type, organization_id, partition_key, idempotency_subject, payload)
    }

    /// The envelope with the W3C `traceparent` of the trace it belongs to.
    pub fn with_trace_context(self, traceparent: &String) -> (r: EventEnvelope)
        ensures
            r.traceparent matches Some(t) && t@ == traceparent@,
            r.event_id == self.event_id && r.topic == self.topic && r.event_type == self.event_type,
            r.schema_version == self.schema_version && r.organization_id == self.organization_id,
            r.partition_key == self.partition_key && r.occurred_at == self.occurred_at,
            r.occurred_at_nanos == self.occurred_at_nanos && r.idempotency_key == self.idempotency_key,
            r.payload == self.payload,
    {
        let mut e = self;
        e.traceparent = Some(traceparent.clone());
        e
    }
}

} // verus!
