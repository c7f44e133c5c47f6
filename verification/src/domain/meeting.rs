//! Scheduled meetings: titles, schedules, attendees and reminders.
use vstd::prelude::*;

use crate::domain::ids::{uuid_simple, uuid_simple_string};
use crate::text::{
    chars_of, collapse_ws, collapsed, contains_char, eq_str, lower_seq, string_of, trim_seq,
    trimmed, trimmed_lower, utf8_len, utf8_len_at_most, utf8_len_between,
};
use crate::time::{
    chrono_representable, format_rfc3339, instant_less, instant_lt, parse_rfc3339, rfc3339_bounds, rfc3339_instant,
    now_utc, rfc3339_text, within_chrono_range,
};

verus! {

#[derive(Clone, Debug, PartialEq, Eq)]
pub struct Meeting {
    pub id: u128,
    pub organization_id: u128,
    pub space_id: Option<u128>,
    pub channel_id: Option<u128>,
    pub created_by_user_id: u128,
    pub title: String,
    pub description: Option<String>,
    pub status: String,
    pub starts_at: String,
    pub ends_at: String,
    pub timezone: String,
    pub join_slug: String,
    pub cancelled_at: Option<String>,
}

#[derive(Clone, Debug, PartialEq, Eq)]
pub struct MeetingAttendee {
    pub id: u128,
    pub meeting_id: u128,
    pub user_id: Option<u128>,
    pub email: Option<String>,
    pub display_name: Option<String>,
    pub role: String,
    pub response_status: String,
}

#[derive(Clone, Debug, PartialEq, Eq)]
pub struct MeetingReminder {
    pub id: u128,
    pub meeting_id: u128,
    pub recipient_user_id: Option<u128>,
    pub recipient_email: Option<String>,
    pub channel: String,
    pub offset_minutes: i32,
    pub scheduled_for: String,
    pub status: String,
}

#[derive(Clone, Debug, PartialEq, Eq)]
pub struct MeetingBundle {
    pub meeting: Meeting,
    pub attendees: Vec<MeetingAttendee>,
    pub reminders: Vec<MeetingReminder>,
}

#[derive(Clone, Debug, PartialEq, Eq)]
pub struct MeetingReminderJob {
    pub meeting: Meeting,
    pub reminder: MeetingReminder,
}

#[derive(Clone, Debug, Default, PartialEq, Eq)]
pub struct MeetingPatch {
    pub title: Option<String>,
    pub description: Option<String>,
    pub starts_at: Option<String>,
    pub ends_at: Option<String>,
    pub timezone: Option<String>,
}

#[derive(Clone, Debug, PartialEq, Eq)]
pub struct NewMeetingAttendee {
    pub user_id: Option<u128>,
    pub email: Option<String>,
    pub display_name: Option<String>,
    pub role: Option<String>,
}

#[derive(Clone, Debug, PartialEq, Eq)]
pub struct NewMeetingReminder {
    pub recipient_user_id: Option<u128>,
    pub recipient_email: Option<String>,
    pub channel: String,
    pub offset_minutes: i32,
}

#[derive(Debug, PartialEq, Eq)]
pub enum MeetingError {
    InvalidInput(&'static str),
    NotFound,
    StoreUnavailable,
}

impl MeetingError {
    pub fn status_code(&self) -> (r: u16)
        ensures
            r == (match self {
                MeetingError::InvalidInput(_) => 400u16,
                MeetingError::NotFound => 404,
                MeetingError::StoreUnavailable => 500,
            }),
    {
        match self {
            MeetingError::InvalidInput(_) => 400,
            MeetingError::NotFound => 404,
            MeetingError::StoreUnavailable => 500,
        }
    }

    pub fn code(&self) -> (r: &'static str)
        ensures
            r@ == (match self {
                MeetingError::InvalidInput(_) => "invalid_request"@,
                MeetingError::NotFound => "meeting_not_found"@,
                MeetingError::StoreUnavailable => "store_unavailable"@,
            }),
    {
        match self {
            MeetingError::InvalidInput(_) => "invalid_request",
            MeetingError::NotFound => "meeting_not_found",
            MeetingError::StoreUnavailable => "store_unavailable",
        }
    }

    pub fn message(&self) -> (r: &'static str)
        ensures
            r@ == (match self {
                MeetingError::InvalidInput(m) => m@,
                MeetingError::NotFound => "meeting was not found"@,
                MeetingError::StoreUnavailable => "meeting store is unavailable"@,
            }),
    {
        match self {
            MeetingError::InvalidInput(m) => m,
            MeetingError::NotFound => "meeting was not found",
            MeetingError::StoreUnavailable => "meeting store is unavailable",
        }
    }
}

pub open spec fn opt_chars(o: Option<String>) -> Option<Seq<char>> {
    match o {
        Some(s) => Some(s@),
        None => None,
    }
}

pub open spec fn valid_title(title: Seq<char>) -> bool {
    1 <= utf8_len(collapse_ws(title)) <= 200
}

pub fn normalize_title(title: String) -> (r: Result<String, MeetingError>)
    ensures
        match r {
            Ok(t) => valid_title(title@) && t@ == collapse_ws(title@),
            Err(e) => !valid_title(title@) && e == MeetingError::InvalidInput(
                "meeting title must be between 1 and 200 characters",
            ),
        },
{
    let t = collapsed(title.as_str());
    if utf8_len_between(&t, 1, 200) {
        Ok(string_of(&t))
    } else {
        Err(MeetingError::InvalidInput("meeting title must be between 1 and 200 characters"))
    }
}

/// A description: white space collapsed, absent when blank, at most 4000
/// bytes.
pub open spec fn normalized_description(d: Option<String>) -> Result<Option<Seq<char>>, MeetingError> {
    match d {
        None => Ok(None),
        Some(s) => {
            let c = collapse_ws(s@);
            if utf8_len(c) > 4000 {
                Err(MeetingError::InvalidInput("meeting description must be 4000 characters or fewer"))
            } else if c.len() == 0 {
                Ok(None)
            } else {
                Ok(Some(c))
            }
        },
    }
}

pub fn normalize_description(description: Option<String>) -> (r: Result<Option<String>, MeetingError>)
    ensures
        match r {
            Ok(o) => normalized_description(description) == Ok::<Option<Seq<char>>, MeetingError>(opt_chars(o)),
            Err(e) => normalized_description(description) == Err::<Option<Seq<char>>, MeetingError>(e),
        },
{
    let description = match description {
        None => return Ok(None),
        Some(d) => d,
    };
    let c = collapsed(description.as_str());
    if !utf8_len_at_most(&c, 4000) {
        Err(MeetingError::InvalidInput("meeting description must be 4000 characters or fewer"))
    } else if c.len() == 0 {
        Ok(None)
    } else {
        Ok(Some(string_of(&c)))
    }
}

/// The time zone: `UTC` when absent, trimmed, 1 to 64 bytes.
pub open spec fn timezone_key(tz: Option<String>) -> Seq<char> {
    match tz {
        Some(s) => trim_seq(s@),
        None => "UTC"@,
    }
}

pub fn normalize_timezone(timezone: Option<String>) -> (r: Result<String, MeetingError>)
    ensures
        match r {
            Ok(t) => 1 <= utf8_len(timezone_key(timezone)) <= 64 && t@ == timezone_key(timezone),
            Err(e) => !(1 <= utf8_len(timezone_key(timezone)) <= 64) && e == MeetingError::InvalidInput(
                "meeting timezone must be between 1 and 64 characters",
            ),
        },
{
    let t = match timezone {
        Some(s) => trimmed(s.as_str()),
        None => {
            proof {
                reveal_strlit("UTC");
                assert(trim_seq("UTC"@) == "UTC"@) by {
                    let ws = |c: char| crate::text::is_white_space(c);
                    assert(crate::text::drop_leading("UTC"@, ws) == "UTC"@);
                    assert(crate::text::drop_trailing("UTC"@, ws) == "UTC"@);
                }
            }
            trimmed("UTC")
        },
    };
    if utf8_len_between(&t, 1, 64) {
        Ok(string_of(&t))
    } else {
        Err(MeetingError::InvalidInput("meeting timezone must be between 1 and 64 characters"))
    }
}

/// An attendee role: `required` when absent; host, required or optional.
pub open spec fn role_key(role: Option<String>) -> Seq<char> {
    match role {
        Some(s) => lower_seq(trim_seq(s@)),
        None => "required"@,
    }
}

pub open spec fn is_attendee_role(k: Seq<char>) -> bool {
    k == "host"@ || k == "required"@ || k == "optional"@
}

pub fn normalize_attendee_role(role: Option<String>) -> (r: Result<String, MeetingError>)
    ensures
        match r {
            Ok(s) => is_attendee_role(role_key(role)) && s@ == role_key(role),
            Err(e) => !is_attendee_role(role_key(role)) && e == MeetingError::InvalidInput(
                "meeting attendee role must be host, required, or optional",
            ),
        },
{
    let k = match role {
        Some(s) => trimmed_lower(s.as_str()),
        None => chars_of("required"),
    };
    if eq_str(&k, "host") {
        Ok(string_of(&chars_of("host")))
    } else if eq_str(&k, "required") {
        Ok(string_of(&chars_of("required")))
    } else if eq_str(&k, "optional") {
        Ok(string_of(&chars_of("optional")))
    } else {
        Err(MeetingError::InvalidInput("meeting attendee role must be host, required, or optional"))
    }
}

pub open spec fn is_reminder_channel(k: Seq<char>) -> bool {
    k == "in_app"@ || k == "push"@ || k == "email"@
}

pub fn normalize_reminder_channel(channel: String) -> (r: Result<String, MeetingError>)
    ensures
        match r {
            Ok(s) => is_reminder_channel(lower_seq(trim_seq(channel@))) && s@ == lower_seq(trim_seq(channel@)),
            Err(e) => !is_reminder_channel(lower_seq(trim_seq(channel@))) && e == MeetingError::InvalidInput(
                "meeting reminder channel must be in_app, push, or email",
            ),
        },
{
    let k = trimmed_lower(channel.as_str());
    if eq_str(&k, "in_app") || eq_str(&k, "push") || eq_str(&k, "email") {
        Ok(string_of(&k))
    } else {
        Err(MeetingError::InvalidInput("meeting reminder channel must be in_app, push, or email"))
    }
}

/// A meeting email: trimmed, lower-cased, with an `@`, at most 254 bytes.
pub open spec fn valid_meeting_email(e: Seq<char>) -> bool {
    e.contains('@') && utf8_len(e) <= 254
}

pub fn normalize_email(email: String) -> (r: Result<String, MeetingError>)
    ensures
        match r {
            Ok(s) => valid_meeting_email(lower_seq(trim_seq(email@))) && s@ == lower_seq(trim_seq(email@)),
            Err(e) => !valid_meeting_email(lower_seq(trim_seq(email@))) && e == MeetingError::InvalidInput(
                "meeting email must be a valid email address",
            ),
        },
{
    let e = trimmed_lower(email.as_str());
    if contains_char(&e, '@') && utf8_len_at_most(&e, 254) {
        Ok(string_of(&e))
    } else {
        Err(MeetingError::InvalidInput("meeting email must be a valid email address"))
    }
}

/// The instant of a trimmed RFC 3339 timestamp.
pub fn parse_time(value: &str, message: &'static str) -> (r: Result<(i64, u32), MeetingError>)
    ensures
        match rfc3339_instant(trim_seq(value@)) {
            Some(t) => r == Ok::<(i64, u32), MeetingError>(t) && chrono_representable(t.0, t.1) && rfc3339_bounds(t),
            None => r == Err::<(i64, u32), MeetingError>(MeetingError::InvalidInput(message)),
        },
{
    let t = string_of(&trimmed(value));
    match parse_rfc3339(t.as_str()) {
        Some(i) => Ok(i),
        None => Err(MeetingError::InvalidInput(message)),
    }
}

/// A meeting must end after it starts.
pub fn validate_schedule(starts_at: (i64, u32), ends_at: (i64, u32)) -> (r: Result<(), MeetingError>)
    ensures
        r == (if instant_lt(starts_at, ends_at) {
            Ok(())
        } else {
            Err(MeetingError::InvalidInput("meeting end time must be after start time"))
        }),
{
    if instant_less(starts_at, ends_at) {
        Ok(())
    } else {
        Err(MeetingError::InvalidInput("meeting end time must be after start time"))
    }
}

/// The stored text of an instant: RFC 3339 in UTC with whole seconds. An
/// instant outside chrono's range is refused with `message`.
pub fn format_time(t: (i64, u32), message: &'static str) -> (r: Result<String, MeetingError>)
    ensures
        match r {
            Ok(s) => s@ == rfc3339_text(t.0, t.1, false) && chrono_representable(t.0, t.1),
            Err(e) => e == MeetingError::InvalidInput(message) && !chrono_representable(t.0, t.1),
        },
{
    match format_rfc3339(t.0, t.1, false) {
        Some(s) => Ok(s),
        None => Err(MeetingError::InvalidInput(message)),
    }
}

/// An attendee of a meeting (`normalize_attendee`): it needs a user or an
/// email.
/// The first check an attendee fails, in the order email, user or email,
/// display name, role.
pub open spec fn attendee_error(a: NewMeetingAttendee) -> Option<MeetingError> {
    if a.email is Some && !valid_meeting_email(lower_seq(trim_seq(a.email->0@))) {
        Some(MeetingError::InvalidInput("meeting email must be a valid email address"))
    } else if a.email is None && a.user_id is None {
        Some(MeetingError::InvalidInput("meeting attendee requires user_id or email"))
    } else if normalized_description(a.display_name) is Err {
        Some(normalized_description(a.display_name)->Err_0)
    } else if !is_attendee_role(role_key(a.role)) {
        Some(MeetingError::InvalidInput("meeting attendee role must be host, required, or optional"))
    } else {
        None
    }
}

/// `a` is the attendee row made from `attendee`: its ids, the user, the
/// trimmed lower-cased email, the normalised display name, the role key and
/// the response status `needs_action`.
pub open spec fn attendee_row(a: MeetingAttendee, id: u128, meeting_id: u128, attendee: NewMeetingAttendee) -> bool {
    &&& a.id == id && a.meeting_id == meeting_id && a.user_id == attendee.user_id
    &&& match attendee.email {
        Some(e) => valid_meeting_email(lower_seq(trim_seq(e@))) && a.email is Some && a.email->0@ == lower_seq(trim_seq(e@)),
        None => a.email is None && attendee.user_id is Some,
    }
    &&& normalized_description(attendee.display_name) == Ok::<Option<Seq<char>>, MeetingError>(opt_chars(a.display_name))
    &&& is_attendee_role(role_key(attendee.role)) && a.role@ == role_key(attendee.role)
    &&& a.response_status@ == "needs_action"@
}

pub fn normalize_attendee(id: u128, meeting_id: u128, attendee: NewMeetingAttendee) -> (r: Result<MeetingAttendee, MeetingError>)
    ensures
        match attendee_error(attendee) {
            Some(e) => r == Err::<MeetingAttendee, MeetingError>(e),
            None => r is Ok,
        },
        match r {
            Ok(a) => attendee_row(a, id, meeting_id, attendee),
            Err(_) => true,
        },
{
    let email = match attendee.email {
        Some(e) => Some(normalize_email(e)?),
        None => None,
    };
    if attendee.user_id.is_none() && email.is_none() {
        return Err(MeetingError::InvalidInput("meeting attendee requires user_id or email"));
    }
    let display_name = normalize_description(attendee.display_name)?;
    let role = normalize_attendee_role(attendee.role)?;
    Ok(MeetingAttendee {
        id,
        meeting_id,
        user_id: attendee.user_id,
        email,
        display_name,
        role,
        response_status: string_of(&chars_of("needs_action")),
    })
}

/// When a reminder fires: `offset_minutes` before the start.
pub open spec fn reminder_instant(starts_at: (i64, u32), offset_minutes: i32) -> (i64, u32) {
    ((starts_at.0 - offset_minutes * 60) as i64, starts_at.1)
}

/// The first check a reminder fails, in the order email, recipient,
/// offset, channel.
pub open spec fn reminder_error(starts_at: (i64, u32), m: NewMeetingReminder) -> Option<MeetingError> {
    if m.recipient_email is Some && !valid_meeting_email(lower_seq(trim_seq(m.recipient_email->0@))) {
        Some(MeetingError::InvalidInput("meeting email must be a valid email address"))
    } else if m.recipient_email is None && m.recipient_user_id is None {
        Some(MeetingError::InvalidInput("meeting reminder requires recipient_user_id or recipient_email"))
    } else if m.offset_minutes < 0 {
        Some(MeetingError::InvalidInput("meeting reminder offset_minutes must be greater than or equal to 0"))
    } else if !is_reminder_channel(lower_seq(trim_seq(m.channel@))) {
        Some(MeetingError::InvalidInput("meeting reminder channel must be in_app, push, or email"))
    } else {
        None
    }
}

/// `m` is the reminder row made from `reminder` for a meeting starting at
/// `starts_at`: its ids, the recipient (user and trimmed lower-cased
/// email), the offset, the channel key, the time it fires and the status
/// `pending`.
pub open spec fn reminder_row(
    m: MeetingReminder,
    id: u128,
    meeting_id: u128,
    starts_at: (i64, u32),
    reminder: NewMeetingReminder,
) -> bool {
    &&& m.id == id && m.meeting_id == meeting_id
    &&& m.recipient_user_id == reminder.recipient_user_id
    &&& match reminder.recipient_email {
        Some(e) => valid_meeting_email(lower_seq(trim_seq(e@))) && m.recipient_email is Some
            && m.recipient_email->0@ == lower_seq(trim_seq(e@)),
        None => m.recipient_email is None && reminder.recipient_user_id is Some,
    }
    &&& reminder.offset_minutes >= 0 && m.offset_minutes == reminder.offset_minutes
    &&& is_reminder_channel(lower_seq(trim_seq(reminder.channel@)))
    &&& m.channel@ == lower_seq(trim_seq(reminder.channel@))
    &&& ({
        let at = reminder_instant(starts_at, reminder.offset_minutes);
        m.scheduled_for@ == rfc3339_text(at.0, at.1, false)
    })
    &&& m.status@ == "pending"@
}

/// A reminder of a meeting that starts at `starts_at`
/// (`normalize_reminder`): it needs a recipient and a non-negative offset.
pub fn normalize_reminder(id: u128, meeting_id: u128, starts_at: (i64, u32), reminder: NewMeetingReminder) -> (r: Result<MeetingReminder, MeetingError>)
    requires
        reminder_error(starts_at, reminder) is None ==> within_chrono_range(
            starts_at.0 - reminder.offset_minutes * 60,
            starts_at.1,
        ) || (i64::MIN <= starts_at.0 - reminder.offset_minutes * 60 && chrono_representable(
            (starts_at.0 - reminder.offset_minutes * 60) as i64,
            starts_at.1,
        )),
    ensures
        match reminder_error(starts_at, reminder) {
            Some(e) => r == Err::<MeetingReminder, MeetingError>(e),
            None => r is Ok,
        },
        match r {
            Ok(m) => reminder_row(m, id, meeting_id, starts_at, reminder),
            Err(_) => true,
        },
{
    let recipient_email = match reminder.recipient_email {
        Some(e) => Some(normalize_email(e)?),
        None => None,
    };
    if reminder.recipient_user_id.is_none() && recipient_email.is_none() {
        return Err(
            MeetingError::InvalidInput("meeting reminder requires recipient_user_id or recipient_email"),
        );
    }
    if reminder.offset_minutes < 0 {
        return Err(
            MeetingError::InvalidInput(
                "meeting reminder offset_minutes must be greater than or equal to 0",
            ),
        );
    }
    let channel = normalize_reminder_channel(reminder.channel)?;
    let offset_seconds = (reminder.offset_minutes as i64) * 60;
    let at = (starts_at.0 - offset_seconds, starts_at.1);
    let scheduled_for = format_time(at, "meeting starts_at must be an RFC3339 timestamp")?;
    Ok(MeetingReminder {
        id,
        meeting_id,
        recipient_user_id: reminder.recipient_user_id,
        recipient_email,
        channel,
        offset_minutes: reminder.offset_minutes,
        scheduled_for,
        status: string_of(&chars_of("pending")),
    })
}

/// The join slug of a meeting: `mtg-` and the simple form of its id.
pub open spec fn join_slug_of(meeting_id: u128) -> Seq<char> {
    "mtg-"@ + uuid_simple(meeting_id)
}

pub fn join_slug(meeting_id: u128) -> (r: String)
    ensures
        r@ == join_slug_of(meeting_id),
{
    let mut s = string_of(&chars_of("mtg-"));
    let u = uuid_simple_string(meeting_id);
    s.append(u.as_str());
    s
}

/// What a new meeting needs besides its id: the raw request.
pub struct NewMeeting {
    pub organization_id: u128,
    pub space_id: Option<u128>,
    pub channel_id: Option<u128>,
    pub created_by_user_id: u128,
    pub title: String,
    pub description: Option<String>,
    pub starts_at: String,
    pub ends_at: String,
    pub timezone: Option<String>,
    pub attendees: Vec<NewMeetingAttendee>,
    pub reminders: Vec<NewMeetingReminder>,
}

/// The ids that a new meeting's rows get.
pub struct MeetingIds {
    pub meeting_id: u128,
    pub attendee_ids: Vec<u128>,
    pub reminder_ids: Vec<u128>,
}

/// The first attendee from the `i`-th on that fails its checks, if any.
pub open spec fn first_attendee_error(atts: Seq<NewMeetingAttendee>, i: int) -> Option<MeetingError>
    decreases atts.len() - i,
{
    if i < 0 || i >= atts.len() {
        None
    } else {
        match attendee_error(atts[i]) {
            Some(e) => Some(e),
            None => first_attendee_error(atts, i + 1),
        }
    }
}

/// The first reminder from the `i`-th on that fails its checks, if any.
pub open spec fn first_reminder_error(starts_at: (i64, u32), rems: Seq<NewMeetingReminder>, i: int) -> Option<MeetingError>
    decreases rems.len() - i,
{
    if i < 0 || i >= rems.len() {
        None
    } else {
        match reminder_error(starts_at, rems[i]) {
            Some(e) => Some(e),
            None => first_reminder_error(starts_at, rems, i + 1),
        }
    }
}

/// Why a meeting request is refused, checked in order: start, end, their
/// order, title, description, time zone, attendees, reminders.
pub open spec fn new_meeting_error(input: NewMeeting) -> Option<MeetingError> {
    match rfc3339_instant(trim_seq(input.starts_at@)) {
        None => Some(MeetingError::InvalidInput("meeting starts_at must be an RFC3339 timestamp")),
        Some(s) => match rfc3339_instant(trim_seq(input.ends_at@)) {
            None => Some(MeetingError::InvalidInput("meeting ends_at must be an RFC3339 timestamp")),
            Some(e) => if !instant_lt(s, e) {
                Some(MeetingError::InvalidInput("meeting end time must be after start time"))
            } else if !valid_title(input.title@) {
                Some(MeetingError::InvalidInput("meeting title must be between 1 and 200 characters"))
            } else if normalized_description(input.description) is Err {
                Some(normalized_description(input.description)->Err_0)
            } else if !(1 <= utf8_len(timezone_key(input.timezone)) <= 64) {
                Some(MeetingError::InvalidInput("meeting timezone must be between 1 and 64 characters"))
            } else {
                match first_attendee_error(input.attendees@, 0) {
                    Some(x) => Some(x),
                    None => first_reminder_error(s, input.reminders@, 0),
                }
            },
        },
    }
}

/// A reminder of a meeting whose start was read from RFC 3339 text fires
/// within chrono's range.
proof fn lemma_reminder_in_range(starts_at: (i64, u32), offset_minutes: i32)
    requires
        rfc3339_bounds(starts_at),
        offset_minutes >= 0,
    ensures
        within_chrono_range(starts_at.0 - offset_minutes * 60, starts_at.1),
{
    vstd::arithmetic::div_mod::lemma_mod_multiples_vanish(-offset_minutes as int, starts_at.0 as int, 60);
    assert(60 * (-offset_minutes as int) + starts_at.0 == starts_at.0 - offset_minutes * 60);
}

/// A scheduled meeting (`create` before the store call): start and end
/// parsed and ordered, fields normalised, one row per attendee and
/// reminder, in order.
pub fn new_meeting(ids: MeetingIds, input: NewMeeting) -> (r: Result<MeetingBundle, MeetingError>)
    requires
        ids.attendee_ids@.len() == input.attendees@.len(),
        ids.reminder_ids@.len() == input.reminders@.len(),
    ensures
        r matches Ok(b) ==> {
            &&& rfc3339_instant(trim_seq(input.starts_at@)) matches Some(s)
            &&& rfc3339_instant(trim_seq(input.ends_at@)) matches Some(e)
            &&& instant_lt(s, e)
            &&& b.meeting.id == ids.meeting_id
            &&& b.meeting.organization_id == input.organization_id
            &&& b.meeting.space_id == input.space_id && b.meeting.channel_id == input.channel_id
            &&& b.meeting.created_by_user_id == input.created_by_user_id
            &&& valid_title(input.title@) && b.meeting.title@ == collapse_ws(input.title@)
            &&& normalized_description(input.description) == Ok::<Option<Seq<char>>, MeetingError>(opt_chars(b.meeting.description))
            &&& b.meeting.status@ == "scheduled"@
            &&& b.meeting.starts_at@ == rfc3339_text(s.0, s.1, false)
            &&& b.meeting.ends_at@ == rfc3339_text(e.0, e.1, false)
            &&& b.meeting.timezone@ == timezone_key(input.timezone)
            &&& b.meeting.join_slug@ == join_slug_of(ids.meeting_id)
            &&& b.meeting.cancelled_at is None
            &&& b.attendees@.len() == input.attendees@.len()
            &&& forall|i: int| 0 <= i < b.attendees@.len() ==> attendee_row(
                #[trigger] b.attendees@[i],
                ids.attendee_ids@[i],
                ids.meeting_id,
                input.attendees@[i],
            )
            &&& b.reminders@.len() == input.reminders@.len()
            &&& forall|i: int| 0 <= i < b.reminders@.len() ==> reminder_row(
                #[trigger] b.reminders@[i],
                ids.reminder_ids@[i],
                ids.meeting_id,
                s,
                input.reminders@[i],
            )
        },
        match new_meeting_error(input) {
            Some(e) => r == Err::<MeetingBundle, MeetingError>(e),
            None => r is Ok,
        },
{
    let ghost err = new_meeting_error(input);
    let starts_at = parse_time(input.starts_at.as_str(), "meeting starts_at must be an RFC3339 timestamp")?;
    let ends_at = parse_time(input.ends_at.as_str(), "meeting ends_at must be an RFC3339 timestamp")?;
    validate_schedule(starts_at, ends_at)?;
    let title = normalize_title(input.title)?;
    let description = normalize_description(input.description)?;
    let starts_text = format_time(starts_at, "meeting starts_at must be an RFC3339 timestamp")?;
    let ends_text = format_time(ends_at, "meeting ends_at must be an RFC3339 timestamp")?;
    let timezone = normalize_timezone(input.timezone)?;
    let meeting = Meeting {
        id: ids.meeting_id,
        organization_id: input.organization_id,
        space_id: input.space_id,
        channel_id: input.channel_id,
        created_by_user_id: input.created_by_user_id,
        title,
        description,
        status: string_of(&chars_of("scheduled")),
        starts_at: starts_text,
        ends_at: ends_text,
        timezone,
        join_slug: join_slug(ids.meeting_id),
        cancelled_at: None,
    };
    let ghost start_in = input.starts_at@;
    let ghost end_in = input.ends_at@;
    let mut attendees: Vec<MeetingAttendee> = Vec::new();
    let mut i: usize = 0;
    let ghost input_attendees = input.attendees@;
    let ghost input_reminders = input.reminders@;
    let mut pending_attendees = input.attendees;
    proof {
        assert(input_attendees.skip(0) =~= input_attendees);
    }
    while i < ids.attendee_ids.len()
        invariant
            i <= input_attendees.len(),
            pending_attendees@ == input_attendees.skip(i as int),
            err == new_meeting_error(input),
            err == (match first_attendee_error(input_attendees, i as int) {
                Some(x) => Some(x),
                None => first_reminder_error(starts_at, input_reminders, 0),
            }),
            ids.attendee_ids@.len() == input_attendees.len(),
            start_in == input.starts_at@,
            end_in == input.ends_at@,
            rfc3339_instant(trim_seq(start_in)) == Some(starts_at),
            rfc3339_instant(trim_seq(end_in)) == Some(ends_at),
            instant_lt(starts_at, ends_at),
            attendees@.len() == i,
            forall|k: int| 0 <= k < i ==> attendee_row(
                #[trigger] attendees@[k],
                ids.attendee_ids@[k],
                ids.meeting_id,
                input_attendees[k],
            ),
        decreases input_attendees.len() - i,
    {
        let a = pending_attendees.remove(0);
        proof {
            assert(input_attendees.skip(i as int + 1) =~= input_attendees.skip(i as int).remove(0));
        }
        let row = normalize_attendee(ids.attendee_ids[i], ids.meeting_id, a)?;
        attendees.push(row);
        i += 1;
    }
    let mut reminders: Vec<MeetingReminder> = Vec::new();
    let mut j: usize = 0;
    let mut pending_reminders = input.reminders;
    proof {
        assert(input_reminders.skip(0) =~= input_reminders);
    }
    while j < ids.reminder_ids.len()
        invariant
            j <= input_reminders.len(),
            pending_reminders@ == input_reminders.skip(j as int),
            err == new_meeting_error(input),
            err == first_reminder_error(starts_at, input_reminders, j as int),
            ids.reminder_ids@.len() == input_reminders.len(),
            start_in == input.starts_at@,
            end_in == input.ends_at@,
            rfc3339_instant(trim_seq(start_in)) == Some(starts_at),
            rfc3339_instant(trim_seq(end_in)) == Some(ends_at),
            instant_lt(starts_at, ends_at),
            rfc3339_bounds(starts_at),
            reminders@.len() == j,
            forall|k: int| 0 <= k < j ==> reminder_row(
                #[trigger] reminders@[k],
                ids.reminder_ids@[k],
                ids.meeting_id,
                starts_at,
                input_reminders[k],
            ),
        decreases input_reminders.len() - j,
    {
        let m = pending_reminders.remove(0);
        proof {
            assert(input_reminders.skip(j as int + 1) =~= input_reminders.skip(j as int).remove(0));
        }
        proof {
            if m.offset_minutes >= 0 {
                lemma_reminder_in_range(starts_at, m.offset_minutes);
            }
        }
        let row = normalize_reminder(ids.reminder_ids[j], ids.meeting_id, starts_at, m)?;
        reminders.push(row);
        j += 1;
    }
    Ok(MeetingBundle { meeting, attendees, reminders })
}

/// Why a patch is refused, checked in order: title, description, time
/// zone, start, end, their order (the stored times stand where none is
/// given).
pub open spec fn patch_error(bundle: MeetingBundle, patch: MeetingPatch) -> Option<MeetingError> {
    let start_text = match patch.starts_at {
        Some(s) => s@,
        None => bundle.meeting.starts_at@,
    };
    let end_text = match patch.ends_at {
        Some(s) => s@,
        None => bundle.meeting.ends_at@,
    };
    if patch.title matches Some(t) && !valid_title(t@) {
        Some(MeetingError::InvalidInput("meeting title must be between 1 and 200 characters"))
    } else if patch.description is Some && normalized_description(patch.description) is Err {
        Some(normalized_description(patch.description)->Err_0)
    } else if patch.timezone is Some && !(1 <= utf8_len(timezone_key(patch.timezone)) <= 64) {
        Some(MeetingError::InvalidInput("meeting timezone must be between 1 and 64 characters"))
    } else if rfc3339_instant(trim_seq(start_text)) is None {
        Some(MeetingError::InvalidInput("meeting starts_at must be an RFC3339 timestamp"))
    } else if rfc3339_instant(trim_seq(end_text)) is None {
        Some(MeetingError::InvalidInput("meeting ends_at must be an RFC3339 timestamp"))
    } else if !instant_lt(rfc3339_instant(trim_seq(start_text))->0, rfc3339_instant(trim_seq(end_text))->0) {
        Some(MeetingError::InvalidInput("meeting end time must be after start time"))
    } else {
        None
    }
}

/// The meeting after `patch` (`update` before the store call): title,
/// description and time zone when given; the schedule re-read, with the
/// stored times where no new one is given, and re-checked.
pub fn apply_patch(bundle: MeetingBundle, patch: MeetingPatch) -> (r: Result<MeetingBundle, MeetingError>)
    ensures
        r matches Ok(b) ==> {
            let start_text = match patch.starts_at {
                Some(s) => s@,
                None => bundle.meeting.starts_at@,
            };
            let end_text = match patch.ends_at {
                Some(s) => s@,
                None => bundle.meeting.ends_at@,
            };
            &&& rfc3339_instant(trim_seq(start_text)) matches Some(s)
            &&& rfc3339_instant(trim_seq(end_text)) matches Some(e)
            &&& instant_lt(s, e)
            &&& b.meeting.starts_at@ == rfc3339_text(s.0, s.1, false)
            &&& b.meeting.ends_at@ == rfc3339_text(e.0, e.1, false)
            &&& match patch.title {
                Some(t) => valid_title(t@) && b.meeting.title@ == collapse_ws(t@),
                None => b.meeting.title == bundle.meeting.title,
            }
            &&& match patch.description {
                Some(d) => normalized_description(Some(d)) == Ok::<Option<Seq<char>>, MeetingError>(opt_chars(b.meeting.description)),
                None => b.meeting.description == bundle.meeting.description,
            }
            &&& match patch.timezone {
                Some(t) => b.meeting.timezone@ == trim_seq(t@) && 1 <= utf8_len(trim_seq(t@)) <= 64,
                None => b.meeting.timezone == bundle.meeting.timezone,
            }
            &&& b.meeting.id == bundle.meeting.id && b.meeting.status == bundle.meeting.status
            &&& b.meeting.join_slug == bundle.meeting.join_slug
            &&& b.attendees == bundle.attendees && b.reminders == bundle.reminders
        },
        match patch_error(bundle, patch) {
            Some(e) => r == Err::<MeetingBundle, MeetingError>(e),
            None => r is Ok,
        },
{
    let mut bundle = bundle;
    if let Some(title) = patch.title {
        bundle.meeting.title = normalize_title(title)?;
    }
    if let Some(description) = patch.description {
        bundle.meeting.description = normalize_description(Some(description))?;
    }
    if let Some(timezone) = patch.timezone {
        bundle.meeting.timezone = normalize_timezone(Some(timezone))?;
    }
    let starts_at = match &patch.starts_at {
        Some(s) => parse_time(s.as_str(), "meeting starts_at must be an RFC3339 timestamp")?,
        None => parse_time(bundle.meeting.starts_at.as_str(), "meeting starts_at must be an RFC3339 timestamp")?,
    };
    let ends_at = match &patch.ends_at {
        Some(s) => parse_time(s.as_str(), "meeting ends_at must be an RFC3339 timestamp")?,
        None => parse_time(bundle.meeting.ends_at.as_str(), "meeting ends_at must be an RFC3339 timestamp")?,
    };
    validate_schedule(starts_at, ends_at)?;
    bundle.meeting.starts_at = format_time(starts_at, "meeting starts_at must be an RFC3339 timestamp")?;
    bundle.meeting.ends_at = format_time(ends_at, "meeting ends_at must be an RFC3339 timestamp")?;
    Ok(bundle)
}

/// The meeting cancelled at `now` (`cancel` before the store call).
pub fn cancel_meeting(bundle: MeetingBundle, now: (i64, u32)) -> (b: MeetingBundle)
    requires
        chrono_representable(now.0, now.1),
    ensures
        b.meeting.status@ == "cancelled"@,
        b.meeting.cancelled_at is Some && b.meeting.cancelled_at->0@ == rfc3339_text(now.0, now.1, false),
        b.meeting.id == bundle.meeting.id && b.meeting.organization_id == bundle.meeting.organization_id,
        b.meeting.title == bundle.meeting.title && b.meeting.description == bundle.meeting.description,
        b.meeting.starts_at == bundle.meeting.starts_at && b.meeting.ends_at == bundle.meeting.ends_at,
        b.meeting.timezone == bundle.meeting.timezone && b.meeting.join_slug == bundle.meeting.join_slug,
        b.attendees == bundle.attendees && b.reminders == bundle.reminders,
{
    let mut bundle = bundle;
    let at = match format_rfc3339(now.0, now.1, false) {
        Some(t) => t,
        None => String::new(),
    };
    bundle.meeting.status = string_of(&chars_of("cancelled"));
    bundle.meeting.cancelled_at = Some(at);
    bundle
}

/// The meeting cancelled now (`cancel` before the store call).
pub fn cancel_meeting_now(bundle: MeetingBundle) -> (b: MeetingBundle)
    ensures
        b.meeting.status@ == "cancelled"@,
        b.meeting.cancelled_at is Some,
        exists|now: (i64, u32)| b.meeting.cancelled_at->0@ == #[trigger] rfc3339_text(now.0, now.1, false),
        b.meeting.id == bundle.meeting.id && b.meeting.organization_id == bundle.meeting.organization_id,
        b.meeting.title == bundle.meeting.title && b.meeting.description == bundle.meeting.description,
        b.meeting.starts_at == bundle.meeting.starts_at && b.meeting.ends_at == bundle.meeting.ends_at,
        b.meeting.timezone == bundle.meeting.timezone && b.meeting.join_slug == bundle.meeting.join_slug,
        b.attendees == bundle.attendees && b.reminders == bundle.reminders,
{
    let now = now_utc();
    cancel_meeting(bundle, now)
}

/// `Ok` when the store found the meeting, else `NotFound`.
pub fn found_meeting(found: Option<MeetingBundle>) -> (r: Result<MeetingBundle, MeetingError>)
    ensures
        match found {
            Some(b) => r == Ok::<MeetingBundle, MeetingError>(b),
            None => r == Err::<MeetingBundle, MeetingError>(MeetingError::NotFound),
        },
{
    match found {
        Some(b) => Ok(b),
        None => Err(MeetingError::NotFound),
    }
}

/// An attendee's role is `required` when none is given; a given role is
/// accepted exactly when, trimmed and lower-cased, it is `host`, `required`
/// or `optional`.
pub proof fn law_attendee_role_choices(role: Option<String>)
    ensures
        role is None ==> role_key(role) == "required"@ && is_attendee_role(role_key(role)),
        role matches Some(s) ==> (is_attendee_role(role_key(role)) <==> {
            let k = lower_seq(trim_seq(s@));
            k == "host"@ || k == "required"@ || k == "optional"@
        }),
{
}

/// Reminders go out in the app, by push or by email: a channel is accepted
/// exactly when, trimmed and lower-cased, it is `in_app`, `push` or `email`.
pub proof fn law_reminder_channel_choices(channel: Seq<char>)
    ensures
        is_reminder_channel(lower_seq(trim_seq(channel))) <==> {
            let k = lower_seq(trim_seq(channel));
            k == "in_app"@ || k == "push"@ || k == "email"@
        },
{
}

} // verus!
