//! Realtime events pushed to connected clients of a space or a channel.
use vstd::prelude::*;

use crate::domain::ids::{new_uuid_v7, uuid_hyphenated, uuid_to_string};
use crate::domain::json::JsonValue;
use crate::text::{chars_of, push_str, string_of};
use crate::time::{chrono_representable, format_rfc3339, now_utc, rfc3339_text};

verus! {

/// Where an event applies: a space, and a channel in it.
#[derive(Clone, Debug, PartialEq, Eq)]
pub struct RealtimeScope {
    pub space_id: Option<String>,
    pub channel_id: Option<String>,
}

#[derive(Debug)]
pub struct RealtimeEvent {
    pub id: String,
    pub event_type: String,
    pub organization_id: String,
    pub scope: RealtimeScope,
    pub occurred_at: String,
    pub data: JsonValue,
}

/// The id of an event: `evt_` and the hyphenated UUID.
pub open spec fn event_id_text(id: u128) -> Seq<char> {
    "evt_"@ + uuid_hyphenated(id)
}

fn event_id(id: u128) -> (r: String)
    ensures
        r@ == event_id_text(id),
{
    let mut v = chars_of("evt_");
    push_str(&mut v, uuid_to_string(id).as_str());
    string_of(&v)
}

/// The time of an event: RFC 3339 in UTC with milliseconds.
fn occurred_text(at: (i64, u32)) -> (r: String)
    requires
        chrono_representable(at.0, at.1),
    ensures
        r@ == rfc3339_text(at.0, at.1, true),
{
    match format_rfc3339(at.0, at.1, true) {
        Some(s) => s,
        None => String::new(),
    }
}

impl RealtimeEvent {
    /// An event of a space with the given id, at the given instant.
    pub fn space_at(
        id: u128,
        at: (i64, u32),
        event_type: &str,
        organization_id: u128,
        space_id: u128,
        data: JsonValue,
    ) -> (r: RealtimeEvent)
        requires
            chrono_representable(at.0, at.1),
        ensures
            r.id@ == event_id_text(id),
            r.event_type@ == event_type@,
            r.organization_id@ == uuid_hyphenated(organization_id),
            r.scope.space_id matches Some(s) && s@ == uuid_hyphenated(space_id),
            r.scope.channel_id is None,
            r.occurred_at@ == rfc3339_text(at.0, at.1, true),
            r.data == data,
    {
        RealtimeEvent {
            id: event_id(id),
            event_type: string_of(&chars_of(event_type)),
            organization_id: uuid_to_string(organization_id),
            scope: RealtimeScope { space_id: Some(uuid_to_string(space_id)), channel_id: None },
            occurred_at: occurred_text(at),
            data,
        }
    }

    /// An event of a channel with the given id, at the given instant.
    pub fn channel_at(
        id: u128,
        at: (i64, u32),
        event_type: &str,
        organization_id: u128,
        space_id: u128,
        channel_id: u128,
        data: JsonValue,
    ) -> (r: RealtimeEvent)
        requires
            chrono_representable(at.0, at.1),
        ensures
            r.id@ == event_id_text(id),
            r.event_type@ == event_type@,
            r.organization_id@ == uuid_hyphenated(organization_id),
            r.scope.space_id matches Some(s) && s@ == uuid_hyphenated(space_id),
            r.scope.channel_id matches Some(c) && c@ == uuid_hyphenated(channel_id),
            r.occurred_at@ == rfc3339_text(at.0, at.1, true),
            r.data == data,
    {
        RealtimeEvent {
            id: event_id(id),
            event_type: string_of(&chars_of(event_type)),
            organization_id: uuid_to_string(organization_id),
            scope: RealtimeScope { space_id: Some(uuid_to_string(space_id)), channel_id: Some(uuid_to_string(channel_id)) },
            occurred_at: occurred_text(at),
            data,
        }
    }

    /// A new event of a space, now.
    pub fn space(event_type: &str, organization_id: u128, space_id: u128, data: JsonValue) -> (r: RealtimeEvent)
        ensures
            exists|id: u128| #[trigger] event_id_text(id) == r.id@,
            exists|t: (i64, u32)|
                chrono_representable(t.0, t.1) && t.1 < 1_000_000_000 && r.occurred_at@ == #[trigger] rfc3339_text(
                    t.0,
                    t.1,
                    true,
                ),
            r.event_type@ == event_type@,
            r.organization_id@ == uuid_hyphenated(organization_id),
            r.scope.space_id matches Some(s) && s@ == uuid_hyphenated(space_id),
            r.scope.channel_id is None,
            r.data == data,
    {
        let id = new_uuid_v7();
        let at = now_utc();
        RealtimeEvent::space_at(id, at, event_type, organization_id, space_id, data)
    }

    /// A new event of a channel, now.
    pub fn channel(event_type: &str, organization_id: u128, space_id: u128, channel_id: u128, data: JsonValue) -> (r: RealtimeEvent)
        ensures
            exists|id: u128| #[trigger] event_id_text(id) == r.id@,
            exists|t: (i64, u32)|
                chrono_representable(t.0, t.1) && t.1 < 1_000_000_000 && r.occurred_at@ == #[trigger] rfc3339_text(
                    t.0,
                    t.1,
                    true,
                ),
            r.event_type@ == event_type@,
            r.organization_id@ == uuid_hyphenated(organization_id),
            r.scope.space_id matches Some(s) && s@ == uuid_hyphenated(space_id),
            r.scope.channel_id matches Some(c) && c@ == uuid_hyphenated(channel_id),
            r.data == data,
    {
        let id = new_uuid_v7();
        let at = now_utc();
        RealtimeEvent::channel_at(id, at, event_type, organization_id, space_id, channel_id, data)
    }
}

} // verus!
