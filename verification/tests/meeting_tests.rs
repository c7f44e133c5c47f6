use opencord::domain::calendar::{meeting_invite_ics, meeting_invite_ics_now};
use opencord::domain::meeting::{
    apply_patch, cancel_meeting, cancel_meeting_now, new_meeting, normalize_attendee_role, normalize_reminder_channel, MeetingError,
    MeetingIds, MeetingPatch, NewMeeting, NewMeetingAttendee, NewMeetingReminder,
};
use opencord::domain::reminder::{
    delivery_from_job, mark_for_outcome, reminder_batch_size, run_time_text, ReminderDeliveryError, ReminderMark,
    ReminderRunSummary,
};
use opencord::domain::meeting::MeetingReminderJob;
use opencord::domain::meeting::format_time;

const MEETING: u128 = 0x0190_0000_0000_7000_8000_0000_0000_00aa;

fn input() -> NewMeeting {
    NewMeeting {
        organization_id: 1,
        space_id: None,
        channel_id: None,
        created_by_user_id: 2,
        title: "  Weekly   sync ".to_string(),
        description: Some("Plans, notes; more".to_string()),
        starts_at: " 2026-07-01T10:00:00+02:00 ".to_string(),
        ends_at: "2026-07-01T09:00:00Z".to_string(),
        timezone: None,
        attendees: vec![
            NewMeetingAttendee {
                user_id: None,
                email: Some(" Ada@Example.com ".to_string()),
                display_name: Some("Ada \"A\" L".to_string()),
                role: Some("host".to_string()),
            },
            NewMeetingAttendee { user_id: Some(5), email: None, display_name: None, role: None },
        ],
        reminders: vec![NewMeetingReminder {
            recipient_user_id: Some(5),
            recipient_email: None,
            channel: " Push ".to_string(),
            offset_minutes: 15,
        }],
    }
}

fn ids() -> MeetingIds {
    MeetingIds { meeting_id: MEETING, attendee_ids: vec![10, 11], reminder_ids: vec![20] }
}

#[test]
fn new_meeting_normalizes_schedule_and_rows() {
    let b = new_meeting(ids(), input()).unwrap();
    assert_eq!(b.meeting.title, "Weekly sync");
    assert_eq!(b.meeting.starts_at, "2026-07-01T08:00:00Z");
    assert_eq!(b.meeting.ends_at, "2026-07-01T09:00:00Z");
    assert_eq!(b.meeting.timezone, "UTC");
    assert_eq!(b.meeting.status, "scheduled");
    assert_eq!(b.meeting.join_slug, "mtg-019000000000700080000000000000aa");
    assert_eq!(b.attendees.len(), 2);
    assert_eq!(b.attendees[0].email, Some("ada@example.com".to_string()));
    assert_eq!(b.attendees[0].role, "host");
    assert_eq!(b.attendees[1].role, "required");
    assert_eq!(b.reminders[0].scheduled_for, "2026-07-01T07:45:00Z");
    assert_eq!(b.reminders[0].channel, "push");
    assert_eq!(b.reminders[0].status, "pending");
}

#[test]
fn meeting_schedule_errors() {
    let mut bad = input();
    bad.starts_at = "tomorrow".to_string();
    assert_eq!(
        new_meeting(ids(), bad).unwrap_err(),
        MeetingError::InvalidInput("meeting starts_at must be an RFC3339 timestamp")
    );
    let mut bad = input();
    bad.ends_at = "2026-07-01T08:00:00Z".to_string();
    assert_eq!(
        new_meeting(ids(), bad).unwrap_err(),
        MeetingError::InvalidInput("meeting end time must be after start time")
    );
    let mut bad = input();
    bad.reminders[0].offset_minutes = -1;
    assert_eq!(
        new_meeting(ids(), bad).unwrap_err(),
        MeetingError::InvalidInput("meeting reminder offset_minutes must be greater than or equal to 0")
    );
    assert!(normalize_attendee_role(Some("speaker".to_string())).is_err());
    assert!(normalize_reminder_channel("sms".to_string()).is_err());
}

#[test]
fn patch_and_cancel() {
    let b = new_meeting(ids(), input()).unwrap();
    let patched = apply_patch(
        b,
        MeetingPatch { ends_at: Some("2026-07-01T10:30:00Z".to_string()), ..MeetingPatch::default() },
    )
    .unwrap();
    assert_eq!(patched.meeting.ends_at, "2026-07-01T10:30:00Z");
    assert_eq!(patched.meeting.starts_at, "2026-07-01T08:00:00Z");
    let cancelled = cancel_meeting(patched.clone(), (1_782_900_000, 0));
    assert_eq!(cancelled.meeting.status, "cancelled");
    assert_eq!(cancelled.meeting.cancelled_at, Some("2026-07-01T10:00:00Z".to_string()));
    assert_eq!(cancelled.meeting.starts_at, patched.meeting.starts_at);
    let cancelled_now = cancel_meeting_now(patched);
    assert_eq!(cancelled_now.meeting.status, "cancelled");
    assert!(cancelled_now.meeting.cancelled_at.is_some());
}

#[test]
fn invite_is_an_icalendar_document() {
    let b = new_meeting(ids(), input()).unwrap();
    let ics = meeting_invite_ics(&b, "https://chat.example.com/", (1_782_892_800, 0)).unwrap();
    let lines: Vec<&str> = ics.split("\r\n").collect();
    assert_eq!(lines[0], "BEGIN:VCALENDAR");
    assert_eq!(lines[6], "UID:01900000-0000-7000-8000-0000000000aa@opencord");
    assert_eq!(lines[7], "DTSTAMP:20260701T080000Z");
    assert_eq!(lines[8], "DTSTART:20260701T080000Z");
    assert_eq!(lines[9], "DTEND:20260701T090000Z");
    assert_eq!(lines[10], "SUMMARY:Weekly sync");
    assert_eq!(
        lines[11],
        "DESCRIPTION:Plans\\, notes\\; more\\n\\nJoin: https://chat.example.com/join/mtg-019000000000700080000000000000aa"
    );
    assert_eq!(lines[13], "URL:https://chat.example.com/join/mtg-019000000000700080000000000000aa");
    assert_eq!(lines[14], "STATUS:CONFIRMED");
    assert_eq!(lines[15], "ATTENDEE;ROLE=CHAIR;CN=\"Ada \\\"A\\\" L\":mailto:ada@example.com");
    assert_eq!(lines[16], "END:VEVENT");
    assert_eq!(lines[17], "END:VCALENDAR");
    assert_eq!(lines[18], "");
    assert!(ics.ends_with("END:VCALENDAR\r\n"));
}

#[test]
fn invite_needs_parsable_times() {
    let mut b = new_meeting(ids(), input()).unwrap();
    b.meeting.ends_at = "later".to_string();
    assert_eq!(
        meeting_invite_ics_now(&b, "").unwrap_err(),
        MeetingError::InvalidInput("meeting ends_at is invalid")
    );
}

#[test]
fn reminder_runs_count_each_delivery() {
    let mut summary = ReminderRunSummary::start(3);
    summary.record(true);
    summary.record(false);
    summary.record(true);
    assert_eq!(summary, ReminderRunSummary { scanned: 3, sent: 2, failed: 1 });
    assert_eq!(reminder_batch_size(0), 1);
    assert_eq!(reminder_batch_size(50), 50);
}

#[test]
fn reminder_marks_follow_the_outcome() {
    let now = run_time_text((1_782_892_800, 0));
    assert_eq!(now, "2026-07-01T08:00:00Z");
    assert_eq!(mark_for_outcome(7, &now, &Ok(())), ReminderMark::Sent { reminder_id: 7, sent_at: now.clone() });
    let err = ReminderDeliveryError::new("smtp down".to_string());
    assert_eq!(err.message(), "smtp down");
    assert_eq!(
        mark_for_outcome(7, &now, &Err(err)),
        ReminderMark::Failed { reminder_id: 7, failed_at: now.clone(), failure_reason: "smtp down".to_string() }
    );
    let b = new_meeting(ids(), input()).unwrap();
    let job = MeetingReminderJob { meeting: b.meeting.clone(), reminder: b.reminders[0].clone() };
    let d = delivery_from_job(job);
    assert_eq!(d.reminder_id, 20);
    assert_eq!(d.meeting_title, "Weekly sync");
    assert_eq!(d.scheduled_for, "2026-07-01T07:45:00Z");
}

#[test]
fn reminder_counts_stop_at_what_was_read() {
    let mut summary = ReminderRunSummary::start(1);
    assert!(summary.try_record(true));
    assert!(!summary.try_record(false));
    assert_eq!(summary, ReminderRunSummary { scanned: 1, sent: 1, failed: 0 });
}

#[test]
fn stored_times_cover_chronos_whole_range() {
    let msg = "out of range";
    assert!(format_time((8_210_266_876_799, 0), msg).is_ok());
    assert_eq!(format_time((8_210_266_876_800, 0), msg), Err(MeetingError::InvalidInput(msg)));
    assert!(format_time((-8_334_601_228_800, 0), msg).is_ok());
    assert_eq!(format_time((-8_334_601_228_801, 0), msg), Err(MeetingError::InvalidInput(msg)));
    assert!(format_time((59, 1_500_000_000), msg).is_ok());
    assert!(format_time((58, 1_500_000_000), msg).is_err());
    assert!(format_time((59, 2_000_000_000), msg).is_err());
}
