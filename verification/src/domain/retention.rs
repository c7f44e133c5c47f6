//! Retention: policies per organization and the purge run that applies them.
use vstd::prelude::*;
use vstd::std_specs::convert::FromSpecImpl;

use crate::domain::attachment::AttachmentError;
use crate::domain::audit::AuditError;
use crate::domain::message::MessageError;
use crate::text::{string_of, trim_seq, trimmed};
use crate::time::{chrono_representable, format_rfc3339, parse_rfc3339, rfc3339_instant, rfc3339_text};

verus! {

#[derive(Clone, Copy, Debug, PartialEq, Eq, Structural)]
pub struct RetentionPolicy {
    pub organization_id: u128,
    pub messages_retain_days: Option<i64>,
    pub files_retain_days: Option<i64>,
    pub audit_logs_retain_days: Option<i64>,
    pub deleted_message_purge_days: Option<i64>,
}

#[derive(Clone, Debug, PartialEq, Eq)]
pub struct RetentionRun {
    pub id: u128,
    pub organization_id: u128,
    pub dry_run: bool,
    pub messages_purged: usize,
    pub files_purged: usize,
    pub audit_events_purged: usize,
    pub ran_at: String,
}

#[derive(Clone, Copy, Debug, PartialEq, Eq, Structural)]
pub struct RetentionRunSummary {
    pub organizations_scanned: usize,
    pub messages_purged: usize,
    pub files_purged: usize,
    pub audit_events_purged: usize,
    pub dry_run: bool,
}

#[derive(Clone, Copy, Debug, PartialEq, Eq)]
pub enum RetentionError {
    InvalidInput(&'static str),
    NotFound,
    StoreUnavailable,
}

impl RetentionError {
    pub fn status_code(&self) -> (r: u16)
        ensures
            r == (match self {
                RetentionError::InvalidInput(_) => 400u16,
                RetentionError::NotFound => 404,
                RetentionError::StoreUnavailable => 500,
            }),
    {
        match self {
            RetentionError::InvalidInput(_) => 400,
            RetentionError::NotFound => 404,
            RetentionError::StoreUnavailable => 500,
        }
    }

    pub fn code(&self) -> (r: &'static str)
        ensures
            r@ == (match self {
                RetentionError::InvalidInput(_) => "invalid_request"@,
                RetentionError::NotFound => "retention_policy_not_found"@,
                RetentionError::StoreUnavailable => "retention_store_unavailable"@,
            }),
    {
        match self {
            RetentionError::InvalidInput(_) => "invalid_request",
            RetentionError::NotFound => "retention_policy_not_found",
            RetentionError::StoreUnavailable => "retention_store_unavailable",
        }
    }

    pub fn message(&self) -> (r: &'static str)
        ensures
            r@ == (match self {
                RetentionError::InvalidInput(m) => m@,
                RetentionError::NotFound => "retention policy was not found"@,
                RetentionError::StoreUnavailable => "retention store is unavailable"@,
            }),
    {
        match self {
            RetentionError::InvalidInput(m) => m,
            RetentionError::NotFound => "retention policy was not found",
            RetentionError::StoreUnavailable => "retention store is unavailable",
        }
    }
}

impl From<MessageError> for RetentionError {
    fn from(error: MessageError) -> (r: RetentionError) {
        match error {
            MessageError::InvalidInput(m) => RetentionError::InvalidInput(m),
            MessageError::NotFound => RetentionError::StoreUnavailable,
            MessageError::StoreUnavailable => RetentionError::StoreUnavailable,
        }
    }
}

impl FromSpecImpl<MessageError> for RetentionError {
    open spec fn obeys_from_spec() -> bool {
        true
    }

    open spec fn from_spec(error: MessageError) -> RetentionError {
        match error {
            MessageError::InvalidInput(m) => RetentionError::InvalidInput(m),
            MessageError::NotFound => RetentionError::StoreUnavailable,
            MessageError::StoreUnavailable => RetentionError::StoreUnavailable,
        }
    }
}

impl From<AttachmentError> for RetentionError {
    fn from(error: AttachmentError) -> (r: RetentionError) {
        match error {
            AttachmentError::InvalidInput(m) => RetentionError::InvalidInput(m),
            AttachmentError::NotFound => RetentionError::StoreUnavailable,
            AttachmentError::StoreUnavailable => RetentionError::StoreUnavailable,
        }
    }
}

impl FromSpecImpl<AttachmentError> for RetentionError {
    open spec fn obeys_from_spec() -> bool {
        true
    }

    open spec fn from_spec(error: AttachmentError) -> RetentionError {
        match error {
            AttachmentError::InvalidInput(m) => RetentionError::InvalidInput(m),
            AttachmentError::NotFound => RetentionError::StoreUnavailable,
            AttachmentError::StoreUnavailable => RetentionError::StoreUnavailable,
        }
    }
}

impl From<AuditError> for RetentionError {
    fn from(error: AuditError) -> (r: RetentionError) {
        match error {
            AuditError::InvalidInput(m) => RetentionError::InvalidInput(m),
            AuditError::StoreUnavailable => RetentionError::StoreUnavailable,
        }
    }
}

impl FromSpecImpl<AuditError> for RetentionError {
    open spec fn obeys_from_spec() -> bool {
        true
    }

    open spec fn from_spec(error: AuditError) -> RetentionError {
        match error {
            AuditError::InvalidInput(m) => RetentionError::InvalidInput(m),
            AuditError::StoreUnavailable => RetentionError::StoreUnavailable,
        }
    }
}

/// The message for a retention period out of range, by field name.
pub open spec fn days_message(field_name: Seq<char>) -> &'static str {
    if field_name == "messages_retain_days"@ {
        "messages_retain_days must be between 1 and 3650"
    } else if field_name == "files_retain_days"@ {
        "files_retain_days must be between 1 and 3650"
    } else if field_name == "audit_logs_retain_days"@ {
        "audit_logs_retain_days must be between 1 and 3650"
    } else if field_name == "deleted_message_purge_days"@ {
        "deleted_message_purge_days must be between 1 and 3650"
    } else {
        "retention days must be between 1 and 3650"
    }
}

/// A retention period is absent or 1 to 3650 days.
pub open spec fn valid_days(value: Option<i64>) -> bool {
    value matches Some(d) ==> 1 <= d <= 3650
}

pub fn normalize_days(value: Option<i64>, field_name: &str) -> (r: Result<Option<i64>, RetentionError>)
    ensures
        r == (if valid_days(value) {
            Ok::<Option<i64>, RetentionError>(value)
        } else {
            Err(RetentionError::InvalidInput(days_message(field_name@)))
        }),
{
    match value {
        Some(days) => {
            if 1 <= days && days <= 3650 {
                Ok(Some(days))
            } else {
                let f = crate::text::chars_of(field_name);
                if crate::text::eq_str(&f, "messages_retain_days") {
                    Err(RetentionError::InvalidInput("messages_retain_days must be between 1 and 3650"))
                } else if crate::text::eq_str(&f, "files_retain_days") {
                    Err(RetentionError::InvalidInput("files_retain_days must be between 1 and 3650"))
                } else if crate::text::eq_str(&f, "audit_logs_retain_days") {
                    Err(RetentionError::InvalidInput("audit_logs_retain_days must be between 1 and 3650"))
                } else if crate::text::eq_str(&f, "deleted_message_purge_days") {
                    Err(RetentionError::InvalidInput("deleted_message_purge_days must be between 1 and 3650"))
                } else {
                    Err(RetentionError::InvalidInput("retention days must be between 1 and 3650"))
                }
            }
        },
        None => Ok(None),
    }
}

/// The first retention period out of range, checked in the order messages,
/// files, audit logs, deleted messages.
pub open spec fn policy_error(p: RetentionPolicy) -> Option<RetentionError> {
    if !valid_days(p.messages_retain_days) {
        Some(RetentionError::InvalidInput("messages_retain_days must be between 1 and 3650"))
    } else if !valid_days(p.files_retain_days) {
        Some(RetentionError::InvalidInput("files_retain_days must be between 1 and 3650"))
    } else if !valid_days(p.audit_logs_retain_days) {
        Some(RetentionError::InvalidInput("audit_logs_retain_days must be between 1 and 3650"))
    } else if !valid_days(p.deleted_message_purge_days) {
        Some(RetentionError::InvalidInput("deleted_message_purge_days must be between 1 and 3650"))
    } else {
        None
    }
}

/// A policy is kept as it is when each period is in range.
pub fn normalize_policy(policy: RetentionPolicy) -> (r: Result<RetentionPolicy, RetentionError>)
    ensures
        r == (match policy_error(policy) {
            Some(e) => Err(e),
            None => Ok::<RetentionPolicy, RetentionError>(policy),
        }),
{
    proof {
        reveal_strlit("messages_retain_days");
        reveal_strlit("files_retain_days");
        reveal_strlit("audit_logs_retain_days");
        reveal_strlit("deleted_message_purge_days");
        assert("messages_retain_days"@[0] == 'm');
        assert("files_retain_days"@[0] == 'f');
        assert("audit_logs_retain_days"@[0] == 'a');
        assert("deleted_message_purge_days"@[0] == 'd');
    }
    let messages_retain_days = normalize_days(policy.messages_retain_days, "messages_retain_days")?;
    let files_retain_days = normalize_days(policy.files_retain_days, "files_retain_days")?;
    let audit_logs_retain_days = normalize_days(policy.audit_logs_retain_days, "audit_logs_retain_days")?;
    let deleted_message_purge_days = normalize_days(policy.deleted_message_purge_days, "deleted_message_purge_days")?;
    Ok(RetentionPolicy {
        organization_id: policy.organization_id,
        messages_retain_days,
        files_retain_days,
        audit_logs_retain_days,
        deleted_message_purge_days,
    })
}

/// The instant `days` days before `now`, in seconds.
pub open spec fn days_before(now: (i64, u32), days: i64) -> int {
    now.0 - days * 86400
}

/// Whether the instant `days` days before `now` is one chrono represents.
pub open spec fn cutoff_in_range(now: (i64, u32), days: Option<i64>) -> bool {
    days matches Some(d) ==> (i64::MIN <= days_before(now, d) && chrono_representable(
        days_before(now, d) as i64,
        now.1,
    ))
}

/// The cutoff for a retention period: the instant that many days before
/// `now`, RFC 3339 in UTC with milliseconds; none without a period.
pub open spec fn cutoff_text(now: (i64, u32), days: Option<i64>) -> Option<Seq<char>> {
    match days {
        Some(d) => Some(rfc3339_text(days_before(now, d) as i64, now.1, true)),
        None => None,
    }
}

/// What the purge of one organization is asked to remove.
#[derive(Clone, Debug, PartialEq, Eq)]
pub struct RetentionPurge {
    pub organization_id: u128,
    pub messages_before: Option<String>,
    pub deleted_messages_before: Option<String>,
    pub files_before: Option<String>,
    pub audit_events_before: Option<String>,
    pub dry_run: bool,
}

/// The characters of an optional text.
pub open spec fn opt_seq(o: &Option<String>) -> Option<Seq<char>> {
    match o {
        Some(s) => Some(s@),
        None => None,
    }
}

/// The cutoff for `days`, or `None` inside `Some` where the instant is out
/// of chrono's range.
fn cutoff(now: (i64, u32), days: Option<i64>) -> (r: Option<Option<String>>)
    requires
        valid_days(days),
    ensures
        r is Some <==> cutoff_in_range(now, days),
        r matches Some(c) ==> match c {
            Some(t) => cutoff_text(now, days) == Some(t@),
            None => cutoff_text(now, days) is None,
        },
{
    match days {
        None => Some(None),
        Some(d) => match now.0.checked_sub(d * 86400) {
            None => None,
            Some(secs) => match format_rfc3339(secs, now.1, true) {
                Some(t) => Some(Some(t)),
                None => None,
            },
        },
    }
}

/// Every cutoff of the policy falls inside chrono's range.
pub open spec fn cutoffs_in_range(now: (i64, u32), policy: RetentionPolicy) -> bool {
    &&& cutoff_in_range(now, policy.messages_retain_days)
    &&& cutoff_in_range(now, policy.deleted_message_purge_days)
    &&& cutoff_in_range(now, policy.files_retain_days)
    &&& cutoff_in_range(now, policy.audit_logs_retain_days)
}

/// The purge `p` is the one asked for by `policy` at `now`.
pub open spec fn purge_of(now: (i64, u32), policy: RetentionPolicy, dry_run: bool, p: RetentionPurge) -> bool {
    &&& p.organization_id == policy.organization_id
    &&& p.dry_run == dry_run
    &&& opt_seq(&p.messages_before) == cutoff_text(now, policy.messages_retain_days)
    &&& opt_seq(&p.deleted_messages_before) == cutoff_text(now, policy.deleted_message_purge_days)
    &&& opt_seq(&p.files_before) == cutoff_text(now, policy.files_retain_days)
    &&& opt_seq(&p.audit_events_before) == cutoff_text(now, policy.audit_logs_retain_days)
}

/// The purge for one organization's policy at `now` (the loop body of
/// `run_once_at` before its store calls): the policy must be in range. Each
/// cutoff must be an instant chrono represents, as its date arithmetic
/// requires.
pub fn retention_purge(now: (i64, u32), policy: RetentionPolicy, dry_run: bool) -> (r: Result<RetentionPurge, RetentionError>)
    requires
        policy_error(policy) is None ==> cutoffs_in_range(now, policy),
    ensures
        match policy_error(policy) {
            Some(e) => r == Err::<RetentionPurge, RetentionError>(e),
            None => r matches Ok(p) && purge_of(now, policy, dry_run, p),
        },
{
    let policy = normalize_policy(policy)?;
    let messages_before = match cutoff(now, policy.messages_retain_days) {
        Some(c) => c,
        None => None,
    };
    let deleted_messages_before = match cutoff(now, policy.deleted_message_purge_days) {
        Some(c) => c,
        None => None,
    };
    let files_before = match cutoff(now, policy.files_retain_days) {
        Some(c) => c,
        None => None,
    };
    let audit_events_before = match cutoff(now, policy.audit_logs_retain_days) {
        Some(c) => c,
        None => None,
    };
    Ok(RetentionPurge {
        organization_id: policy.organization_id,
        messages_before,
        deleted_messages_before,
        files_before,
        audit_events_before,
        dry_run,
    })
}

/// Whether the cutoff for `days` before `now` falls inside chrono's range.
fn cutoff_fits(now: (i64, u32), days: Option<i64>) -> (r: bool)
    requires
        valid_days(days),
    ensures
        r == cutoff_in_range(now, days),
{
    cutoff(now, days).is_some()
}

/// `retention_purge` where every cutoff falls inside chrono's range, and
/// `Ok(None)` where one does not.
pub fn plan_retention(now: (i64, u32), policy: RetentionPolicy, dry_run: bool) -> (r: Result<Option<RetentionPurge>, RetentionError>)
    ensures
        match policy_error(policy) {
            Some(e) => r == Err::<Option<RetentionPurge>, RetentionError>(e),
            None => {
                &&& r is Ok
                &&& (r->Ok_0 is Some <==> cutoffs_in_range(now, policy))
                &&& r->Ok_0 matches Some(p) ==> purge_of(now, policy, dry_run, p)
            },
        },
{
    let checked = normalize_policy(policy)?;
    let fits = cutoff_fits(now, checked.messages_retain_days) && cutoff_fits(now, checked.deleted_message_purge_days)
        && cutoff_fits(now, checked.files_retain_days) && cutoff_fits(now, checked.audit_logs_retain_days);
    if !fits {
        return Ok(None);
    }
    let purge = retention_purge(now, policy, dry_run)?;
    Ok(Some(purge))
}

/// The time of a run given as `now` (trimmed RFC 3339): the instant and
/// the time stamped on each recorded run (UTC, milliseconds).
pub fn retention_run_time(now: &str) -> (r: Result<((i64, u32), String), RetentionError>)
    ensures
        match rfc3339_instant(trim_seq(now@)) {
            None => r == Err::<((i64, u32), String), RetentionError>(
                RetentionError::InvalidInput("retention run timestamp must be RFC3339"),
            ),
            Some(t) => r matches Ok(v) && v.0 == t && v.1@ == rfc3339_text(t.0, t.1, true),
        },
{
    let text = string_of(&trimmed(now));
    let t = match parse_rfc3339(text.as_str()) {
        Some(t) => t,
        None => {
            return Err(RetentionError::InvalidInput("retention run timestamp must be RFC3339"));
        },
    };
    let ran_at = match format_rfc3339(t.0, t.1, true) {
        Some(s) => s,
        None => String::new(),
    };
    Ok((t, ran_at))
}

/// The start of a run at the time `now` (trimmed RFC 3339): the instant,
/// the time stamped on each recorded run (UTC, milliseconds) and the empty
/// summary for `organizations` policies.
pub fn start_retention_run(now: &str, dry_run: bool, organizations: usize) -> (r: Result<((i64, u32), String, RetentionRunSummary), RetentionError>)
    ensures
        match rfc3339_instant(trim_seq(now@)) {
            None => r == Err::<((i64, u32), String, RetentionRunSummary), RetentionError>(
                RetentionError::InvalidInput("retention run timestamp must be RFC3339"),
            ),
            Some(t) => r matches Ok(v) && v.0 == t && v.1@ == rfc3339_text(t.0, t.1, true) && v.2 == (
            RetentionRunSummary {
                organizations_scanned: organizations,
                messages_purged: 0,
                files_purged: 0,
                audit_events_purged: 0,
                dry_run,
            }),
        },
{
    let (t, ran_at) = retention_run_time(now)?;
    Ok((t, ran_at, RetentionRunSummary::start(organizations, dry_run)))
}

/// The summary after one organization's purge removed the given counts.
pub open spec fn summary_added(s: RetentionRunSummary, counts: (usize, usize, usize)) -> RetentionRunSummary {
    RetentionRunSummary {
        messages_purged: (s.messages_purged + counts.0) as usize,
        files_purged: (s.files_purged + counts.1) as usize,
        audit_events_purged: (s.audit_events_purged + counts.2) as usize,
        ..s
    }
}

/// The summary after purges with the given counts, in order.
pub open spec fn summary_after(s: RetentionRunSummary, counts: Seq<(usize, usize, usize)>) -> RetentionRunSummary
    decreases counts.len(),
{
    if counts.len() == 0 {
        s
    } else {
        summary_added(summary_after(s, counts.drop_last()), counts.last())
    }
}

/// The total of one of the three counts.
pub open spec fn total_of(counts: Seq<(usize, usize, usize)>, which: int) -> int
    decreases counts.len(),
{
    if counts.len() == 0 {
        0
    } else {
        total_of(counts.drop_last(), which) + if which == 0 {
            counts.last().0 as int
        } else if which == 1 {
            counts.last().1 as int
        } else {
            counts.last().2 as int
        }
    }
}

impl RetentionRunSummary {
    /// The empty summary of a run over `organizations` policies.
    pub fn start(organizations: usize, dry_run: bool) -> (r: RetentionRunSummary)
        ensures
            r == (RetentionRunSummary {
                organizations_scanned: organizations,
                messages_purged: 0,
                files_purged: 0,
                audit_events_purged: 0,
                dry_run,
            }),
    {
        RetentionRunSummary {
            organizations_scanned: organizations,
            messages_purged: 0,
            files_purged: 0,
            audit_events_purged: 0,
            dry_run,
        }
    }

    /// Adds one organization's purge counts where every total still fits
    /// in a `usize`; says whether it did (the totals are unchanged if not).
    pub fn try_add_purge(&mut self, messages: usize, files: usize, audit_events: usize) -> (added: bool)
        ensures
            added == (old(self).messages_purged + messages <= usize::MAX && old(self).files_purged + files
                <= usize::MAX && old(self).audit_events_purged + audit_events <= usize::MAX),
            added ==> *final(self) == summary_added(*old(self), (messages, files, audit_events)),
            !added ==> *final(self) == *old(self),
    {
        if messages > usize::MAX - self.messages_purged || files > usize::MAX - self.files_purged
            || audit_events > usize::MAX - self.audit_events_purged {
            return false;
        }
        self.add_purge(messages, files, audit_events);
        true
    }

    /// Adds one organization's purge counts.
    pub fn add_purge(&mut self, messages: usize, files: usize, audit_events: usize)
        requires
            old(self).messages_purged + messages <= usize::MAX,
            old(self).files_purged + files <= usize::MAX,
            old(self).audit_events_purged + audit_events <= usize::MAX,
        ensures
            *final(self) == summary_added(*old(self), (messages, files, audit_events)),
    {
        self.messages_purged = self.messages_purged + messages;
        self.files_purged = self.files_purged + files;
        self.audit_events_purged = self.audit_events_purged + audit_events;
    }
}

/// The record of one organization's purge.
pub fn retention_run_record(id: u128, purge: &RetentionPurge, messages: usize, files: usize, audit_events: usize, ran_at: &String) -> (r: RetentionRun)
    ensures
        r.id == id && r.organization_id == purge.organization_id && r.dry_run == purge.dry_run,
        r.messages_purged == messages && r.files_purged == files && r.audit_events_purged == audit_events,
        r.ran_at@ == ran_at@,
{
    RetentionRun {
        id,
        organization_id: purge.organization_id,
        dry_run: purge.dry_run,
        messages_purged: messages,
        files_purged: files,
        audit_events_purged: audit_events,
        ran_at: ran_at.clone(),
    }
}

/// A run's totals are the sums of the counts of the organizations it
/// purged, where they fit; the number scanned and the dry-run flag stay.
pub proof fn law_retention_totals_are_sums(start: RetentionRunSummary, counts: Seq<(usize, usize, usize)>)
    requires
        start.messages_purged == 0 && start.files_purged == 0 && start.audit_events_purged == 0,
        total_of(counts, 0) <= usize::MAX,
        total_of(counts, 1) <= usize::MAX,
        total_of(counts, 2) <= usize::MAX,
    ensures
        summary_after(start, counts).messages_purged == total_of(counts, 0),
        summary_after(start, counts).files_purged == total_of(counts, 1),
        summary_after(start, counts).audit_events_purged == total_of(counts, 2),
        summary_after(start, counts).organizations_scanned == start.organizations_scanned,
        summary_after(start, counts).dry_run == start.dry_run,
    decreases counts.len(),
{
    if counts.len() > 0 {
        lemma_total_monotone(counts);
        law_retention_totals_are_sums(start, counts.drop_last());
    }
}

proof fn lemma_total_monotone(counts: Seq<(usize, usize, usize)>)
    requires
        counts.len() > 0,
    ensures
        total_of(counts.drop_last(), 0) <= total_of(counts, 0),
        total_of(counts.drop_last(), 1) <= total_of(counts, 1),
        total_of(counts.drop_last(), 2) <= total_of(counts, 2),
{
}

} // verus!
