//! The meeting reminder run: what is delivered for each due reminder and how
//! the run is counted.
use vstd::prelude::*;

use crate::domain::meeting::MeetingReminderJob;
use crate::time::{chrono_representable, format_rfc3339, now_utc, rfc3339_text};

verus! {

/// How many due reminders a run reads when no batch size is set.
pub const DEFAULT_REMINDER_BATCH_SIZE: usize = 100usize;

#[derive(Clone, Debug, PartialEq, Eq)]
pub struct MeetingReminderDelivery {
    pub reminder_id: u128,
    pub meeting_id: u128,
    pub meeting_title: String,
    pub meeting_starts_at: String,
    pub join_slug: String,
    pub channel: String,
    pub recipient_user_id: Option<u128>,
    pub recipient_email: Option<String>,
    pub scheduled_for: String,
}

#[derive(Clone, Copy, Debug, PartialEq, Eq, Structural)]
pub struct ReminderRunSummary {
    pub scanned: usize,
    pub sent: usize,
    pub failed: usize,
}

/// Why a reminder could not be delivered.
#[derive(Clone, Debug, PartialEq, Eq)]
pub struct ReminderDeliveryError {
    message: String,
}

impl ReminderDeliveryError {
    /// The text of the error.
    pub closed spec fn text(&self) -> Seq<char> {
        self.message@
    }

    pub fn new(message: String) -> (r: ReminderDeliveryError)
        ensures
            r.text() == message@,
    {
        ReminderDeliveryError { message }
    }

    pub fn message(&self) -> (r: &str)
        ensures
            r@ == self.text(),
    {
        self.message.as_str()
    }
}

/// The dispatcher that only logs each reminder; every delivery succeeds.
#[derive(Clone, Copy, Debug, Default)]
pub struct LoggingMeetingReminderDispatcher;

impl LoggingMeetingReminderDispatcher {
    /// The outcome of delivering a reminder by logging it.
    pub fn deliver(&self, delivery: &MeetingReminderDelivery) -> (r: Result<(), ReminderDeliveryError>)
        ensures
            r is Ok,
    {
        Ok(())
    }
}

/// The batch size a worker uses when `requested` is asked for: at least one.
pub fn reminder_batch_size(requested: usize) -> (r: usize)
    ensures
        r == (if requested == 0 { 1 } else { requested }),
{
    if requested == 0 {
        1
    } else {
        requested
    }
}

/// What is delivered for a due reminder.
pub fn delivery_from_job(job: MeetingReminderJob) -> (d: MeetingReminderDelivery)
    ensures
        d.reminder_id == job.reminder.id,
        d.meeting_id == job.meeting.id,
        d.meeting_title == job.meeting.title,
        d.meeting_starts_at == job.meeting.starts_at,
        d.join_slug == job.meeting.join_slug,
        d.channel == job.reminder.channel,
        d.recipient_user_id == job.reminder.recipient_user_id,
        d.recipient_email == job.reminder.recipient_email,
        d.scheduled_for == job.reminder.scheduled_for,
{
    MeetingReminderDelivery {
        reminder_id: job.reminder.id,
        meeting_id: job.meeting.id,
        meeting_title: job.meeting.title,
        meeting_starts_at: job.meeting.starts_at,
        join_slug: job.meeting.join_slug,
        channel: job.reminder.channel,
        recipient_user_id: job.reminder.recipient_user_id,
        recipient_email: job.reminder.recipient_email,
        scheduled_for: job.reminder.scheduled_for,
    }
}

/// The time of a run, as stored: RFC 3339 in UTC, whole seconds.
pub fn run_time_text(now: (i64, u32)) -> (r: String)
    requires
        chrono_representable(now.0, now.1),
    ensures
        r@ == rfc3339_text(now.0, now.1, false),
{
    match format_rfc3339(now.0, now.1, false) {
        Some(s) => s,
        None => String::new(),
    }
}

/// The time of a run that starts now (`run_once`).
pub fn run_time_now() -> (r: String)
    ensures
        exists|t: (i64, u32)| r@ == #[trigger] rfc3339_text(t.0, t.1, false),
{
    let now = now_utc();
    run_time_text(now)
}

/// What the store is told after a delivery attempt.
#[derive(Clone, Debug, PartialEq, Eq)]
pub enum ReminderMark {
    Sent { reminder_id: u128, sent_at: String },
    Failed { reminder_id: u128, failed_at: String, failure_reason: String },
}

/// The mark for a reminder after its delivery gave `outcome`: sent, or
/// failed with the error's text.
pub fn mark_for_outcome(reminder_id: u128, now: &String, outcome: &Result<(), ReminderDeliveryError>) -> (r: ReminderMark)
    ensures
        match outcome {
            Ok(_) => r matches ReminderMark::Sent { reminder_id: id, sent_at } && id == reminder_id && sent_at@ == now@,
            Err(e) => r matches ReminderMark::Failed { reminder_id: id, failed_at, failure_reason }
                && id == reminder_id && failed_at@ == now@ && failure_reason@ == e.text(),
        },
{
    match outcome {
        Ok(_) => ReminderMark::Sent { reminder_id, sent_at: now.clone() },
        Err(e) => ReminderMark::Failed {
            reminder_id,
            failed_at: now.clone(),
            failure_reason: e.message().to_string(),
        },
    }
}

/// The counts after one more delivery, sent (`delivered`) or failed.
pub open spec fn counted(s: ReminderRunSummary, delivered: bool) -> ReminderRunSummary {
    if delivered {
        ReminderRunSummary { sent: (s.sent + 1) as usize, ..s }
    } else {
        ReminderRunSummary { failed: (s.failed + 1) as usize, ..s }
    }
}

/// The counts after deliveries with the given outcomes, in order.
pub open spec fn counted_all(s: ReminderRunSummary, outcomes: Seq<bool>) -> ReminderRunSummary
    decreases outcomes.len(),
{
    if outcomes.len() == 0 {
        s
    } else {
        counted(counted_all(s, outcomes.drop_last()), outcomes.last())
    }
}

/// How many outcomes are `v`.
pub open spec fn count_of(outcomes: Seq<bool>, v: bool) -> nat
    decreases outcomes.len(),
{
    if outcomes.len() == 0 {
        0
    } else {
        count_of(outcomes.drop_last(), v) + if outcomes.last() == v { 1nat } else { 0nat }
    }
}

impl ReminderRunSummary {
    /// The counts of a run that read `scanned` due reminders.
    pub fn start(scanned: usize) -> (r: ReminderRunSummary)
        ensures
            r == (ReminderRunSummary { scanned, sent: 0, failed: 0 }),
    {
        ReminderRunSummary { scanned, sent: 0, failed: 0 }
    }

    /// Counts one delivery attempt where the run has one left to count (it
    /// read more reminders than it has counted); says whether it did.
    pub fn try_record(&mut self, delivered: bool) -> (recorded: bool)
        ensures
            recorded == (old(self).sent + old(self).failed < old(self).scanned),
            recorded ==> *final(self) == counted(*old(self), delivered),
            !recorded ==> *final(self) == *old(self),
    {
        if self.failed >= self.scanned || self.sent >= self.scanned - self.failed {
            return false;
        }
        self.record(delivered);
        true
    }

    /// Counts one delivery attempt.
    pub fn record(&mut self, delivered: bool)
        requires
            old(self).sent + old(self).failed < old(self).scanned,
        ensures
            *final(self) == counted(*old(self), delivered),
    {
        if delivered {
            self.sent = self.sent + 1;
        } else {
            self.failed = self.failed + 1;
        }
    }
}

/// After a run has counted one attempt per due reminder, every reminder it
/// read is counted once, as sent or as failed, and `sent` is the number of
/// deliveries that succeeded.
pub proof fn law_reminder_run_counts_each_reminder(outcomes: Seq<bool>)
    requires
        outcomes.len() <= usize::MAX,
    ensures
        ({
            let s = counted_all(ReminderRunSummary { scanned: outcomes.len() as usize, sent: 0, failed: 0 }, outcomes);
            &&& s.sent + s.failed == s.scanned
            &&& s.sent == count_of(outcomes, true)
            &&& s.failed == count_of(outcomes, false)
        }),
{
    lemma_counted_all(outcomes.len() as usize, outcomes);
}

proof fn lemma_counted_all(scanned: usize, outcomes: Seq<bool>)
    requires
        outcomes.len() <= scanned,
    ensures
        ({
            let s = counted_all(ReminderRunSummary { scanned, sent: 0, failed: 0 }, outcomes);
            &&& s.scanned == scanned
            &&& s.sent == count_of(outcomes, true)
            &&& s.failed == count_of(outcomes, false)
            &&& s.sent + s.failed == outcomes.len()
        }),
    decreases outcomes.len(),
{
    if outcomes.len() > 0 {
        lemma_counted_all(scanned, outcomes.drop_last());
    }
}

} // verus!
