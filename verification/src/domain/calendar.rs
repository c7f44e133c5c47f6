//! iCalendar invitations for meetings.
use vstd::prelude::*;

use crate::domain::ids::{uuid_hyphenated, uuid_to_string};
use crate::domain::meeting::{MeetingAttendee, MeetingBundle, MeetingError};
use crate::text::{chars_of, drop_trailing, eq_str, push_chars, push_str, string_of, strip_trailing};
use crate::time::{chrono_representable, format_ics, ics_text, now_utc, parse_rfc3339, rfc3339_instant};

verus! {

/// The end of a line in an iCalendar document.
pub open spec fn crlf() -> Seq<char> {
    seq!['\r', '\n']
}

/// The lines of a document, each followed by CRLF (`join("\r\n")` and a
/// final CRLF).
pub open spec fn ics_join(lines: Seq<Seq<char>>) -> Seq<char>
    decreases lines.len(),
{
    if lines.len() == 0 {
        Seq::empty()
    } else {
        ics_join(lines.drop_last()) + lines.last() + crlf()
    }
}

/// How `escape_text` writes one character.
pub open spec fn text_escape_char(c: char) -> Seq<char> {
    if c == '\\' {
        seq!['\\', '\\']
    } else if c == ';' {
        seq!['\\', ';']
    } else if c == ',' {
        seq!['\\', ',']
    } else if c == '\n' || c == '\r' {
        seq!['\\', 'n']
    } else {
        seq![c]
    }
}

/// An iCalendar text value: backslash, `;` and `,` escaped with a
/// backslash, and each CRLF, CR or LF written as `\n`.
pub open spec fn escape_text_seq(s: Seq<char>) -> Seq<char>
    decreases s.len(),
{
    if s.len() == 0 {
        Seq::empty()
    } else if s.len() >= 2 && s[0] == '\r' && s[1] == '\n' {
        seq!['\\', 'n'] + escape_text_seq(s.subrange(2, s.len() as int))
    } else {
        text_escape_char(s[0]) + escape_text_seq(s.drop_first())
    }
}

/// How `escape_parameter` writes one character.
pub open spec fn parameter_escape_char(c: char) -> Seq<char> {
    if c == '\\' {
        seq!['\\', '\\']
    } else if c == '"' {
        seq!['\\', '"']
    } else if c == '\r' || c == '\n' {
        seq![' ']
    } else {
        seq![c]
    }
}

pub open spec fn parameter_body(s: Seq<char>) -> Seq<char>
    decreases s.len(),
{
    if s.len() == 0 {
        Seq::empty()
    } else {
        parameter_escape_char(s[0]) + parameter_body(s.drop_first())
    }
}

/// An iCalendar parameter value: quoted, with backslash and `"` escaped and
/// line breaks written as spaces.
pub open spec fn escape_parameter_seq(s: Seq<char>) -> Seq<char> {
    seq!['"'] + parameter_body(s) + seq!['"']
}

/// The address at which a meeting is joined: the public URL without
/// trailing slashes, `/join/` and the slug.
pub open spec fn join_url_of(public_url: Seq<char>, slug: Seq<char>) -> Seq<char> {
    let base = drop_trailing(public_url, |x: char| x == '/');
    if base.len() == 0 {
        "/join/"@ + slug
    } else {
        base + "/join/"@ + slug
    }
}

/// The iCalendar role of a meeting attendee role.
pub open spec fn ics_role(role: Seq<char>) -> Seq<char> {
    if role == "host"@ {
        "CHAIR"@
    } else if role == "optional"@ {
        "OPT-PARTICIPANT"@
    } else {
        "REQ-PARTICIPANT"@
    }
}

/// The `ATTENDEE` line of an attendee with an email address.
pub open spec fn attendee_line(a: MeetingAttendee, email: Seq<char>) -> Seq<char> {
    let cn = match a.display_name {
        Some(d) => d@,
        None => email,
    };
    "ATTENDEE;ROLE="@ + ics_role(a.role@) + ";CN="@ + escape_parameter_seq(cn) + ":mailto:"@ + email
}

/// One `ATTENDEE` line per attendee with an email address, in order.
pub open spec fn attendee_lines(attendees: Seq<MeetingAttendee>) -> Seq<Seq<char>>
    decreases attendees.len(),
{
    if attendees.len() == 0 {
        Seq::empty()
    } else {
        let prev = attendee_lines(attendees.drop_last());
        match attendees.last().email {
            Some(e) => prev.push(attendee_line(attendees.last(), e@)),
            None => prev,
        }
    }
}

/// The description of the event: the meeting's description, a blank line
/// and the join address; or only the join address.
pub open spec fn event_description(description: Option<Seq<char>>, join_url: Seq<char>) -> Seq<char> {
    match description {
        Some(d) => d + "\n\nJoin: "@ + join_url,
        None => "Join: "@ + join_url,
    }
}

/// The lines of the invitation, in order, with the stamp, start and end
/// instants given.
pub open spec fn invite_lines(
    bundle: MeetingBundle,
    public_url: Seq<char>,
    stamp: (i64, u32),
    starts: (i64, u32),
    ends: (i64, u32),
) -> Seq<Seq<char>> {
    let m = bundle.meeting;
    let join = join_url_of(public_url, m.join_slug@);
    let description = match m.description {
        Some(d) => Some(d@),
        None => None,
    };
    seq![
        "BEGIN:VCALENDAR"@,
        "VERSION:2.0"@,
        "PRODID:-//OpenCord//OpenCord Calendar//EN"@,
        "CALSCALE:GREGORIAN"@,
        "METHOD:PUBLISH"@,
        "BEGIN:VEVENT"@,
        "UID:"@ + uuid_hyphenated(m.id) + "@opencord"@,
        "DTSTAMP:"@ + ics_text(stamp.0, stamp.1),
        "DTSTART:"@ + ics_text(starts.0, starts.1),
        "DTEND:"@ + ics_text(ends.0, ends.1),
        "SUMMARY:"@ + escape_text_seq(m.title@),
        "DESCRIPTION:"@ + escape_text_seq(event_description(description, join)),
        "LOCATION:"@ + escape_text_seq(join),
        "URL:"@ + join,
        "STATUS:"@ + (if m.status@ == "cancelled"@ { "CANCELLED"@ } else { "CONFIRMED"@ }),
    ] + attendee_lines(bundle.attendees@) + seq!["END:VEVENT"@, "END:VCALENDAR"@]
}

fn escape_text(value: &Vec<char>) -> (r: Vec<char>)
    ensures
        r@ == escape_text_seq(value@),
{
    let mut out: Vec<char> = Vec::new();
    let mut i: usize = 0;
    let n = value.len();
    proof {
        assert(value@.subrange(0, n as int) =~= value@);
    }
    while i < n
        invariant
            n == value.len(),
            i <= n,
            escape_text_seq(value@) == out@ + escape_text_seq(value@.subrange(i as int, n as int)),
        decreases n - i,
    {
        let ghost rest = value@.subrange(i as int, n as int);
        let ghost before = out@;
        let c = value[i];
        if c == '\r' && i + 1 < n && value[i + 1] == '\n' {
            proof {
                assert(rest.subrange(2, rest.len() as int) =~= value@.subrange(i + 2, n as int));
            }
            out.push('\\');
            out.push('n');
            proof {
                let tail = escape_text_seq(value@.subrange(i + 2, n as int));
                assert(before + (seq!['\\', 'n'] + tail) =~= out@ + tail);
            }
            i += 2;
        } else {
            proof {
                assert(rest.drop_first() =~= value@.subrange(i + 1, n as int));
            }
            if c == '\\' {
                out.push('\\');
                out.push('\\');
            } else if c == ';' {
                out.push('\\');
                out.push(';');
            } else if c == ',' {
                out.push('\\');
                out.push(',');
            } else if c == '\n' || c == '\r' {
                out.push('\\');
                out.push('n');
            } else {
                out.push(c);
            }
            proof {
                let tail = escape_text_seq(value@.subrange(i + 1, n as int));
                assert(out@ =~= before + text_escape_char(c));
                assert(before + (text_escape_char(c) + tail) =~= out@ + tail);
            }
            i += 1;
        }
    }
    proof {
        assert(value@.subrange(n as int, n as int) =~= Seq::<char>::empty());
        assert(out@ + Seq::<char>::empty() =~= out@);
    }
    out
}

fn escape_parameter(value: &Vec<char>) -> (r: Vec<char>)
    ensures
        r@ == escape_parameter_seq(value@),
{
    let mut out: Vec<char> = Vec::new();
    out.push('"');
    let mut i: usize = 0;
    let n = value.len();
    proof {
        assert(value@.subrange(0, n as int) =~= value@);
        assert(out@ =~= seq!['"']);
    }
    while i < n
        invariant
            n == value.len(),
            i <= n,
            seq!['"'] + parameter_body(value@) == out@ + parameter_body(value@.subrange(i as int, n as int)),
        decreases n - i,
    {
        let ghost rest = value@.subrange(i as int, n as int);
        let ghost before = out@;
        let c = value[i];
        proof {
            assert(rest.drop_first() =~= value@.subrange(i + 1, n as int));
        }
        if c == '\\' {
            out.push('\\');
            out.push('\\');
        } else if c == '"' {
            out.push('\\');
            out.push('"');
        } else if c == '\r' || c == '\n' {
            out.push(' ');
        } else {
            out.push(c);
        }
        proof {
            let tail = parameter_body(value@.subrange(i + 1, n as int));
            assert(out@ =~= before + parameter_escape_char(c));
            assert(before + (parameter_escape_char(c) + tail) =~= out@ + tail);
        }
        i += 1;
    }
    let ghost body_done = out@;
    out.push('"');
    proof {
        assert(value@.subrange(n as int, n as int) =~= Seq::<char>::empty());
        assert(body_done + Seq::<char>::empty() =~= body_done);
        assert(out@ =~= seq!['"'] + parameter_body(value@) + seq!['"']);
    }
    out
}

pub(crate) fn join_url(public_url: &str, join_slug: &str) -> (r: Vec<char>)
    ensures
        r@ == join_url_of(public_url@, join_slug@),
{
    let mut base = strip_trailing(&chars_of(public_url), '/');
    proof {
        assert((|x: char| x == '/') =~= (|x: char| x == '/'));
    }
    if base.len() == 0 {
        let mut out = chars_of("/join/");
        push_str(&mut out, join_slug);
        out
    } else {
        push_str(&mut base, "/join/");
        push_str(&mut base, join_slug);
        base
    }
}

/// A stored meeting time as an iCalendar UTC time (`meeting_time`).
fn meeting_time(value: &str, message: &'static str) -> (r: Result<Vec<char>, MeetingError>)
    ensures
        match rfc3339_instant(value@) {
            Some(t) => r matches Ok(s) && s@ == ics_text(t.0, t.1),
            None => r == Err::<Vec<char>, MeetingError>(MeetingError::InvalidInput(message)),
        },
{
    match parse_rfc3339(value) {
        Some(t) => match format_ics(t.0, t.1) {
            Some(s) => Ok(chars_of(s.as_str())),
            None => Err(MeetingError::InvalidInput(message)),
        },
        None => Err(MeetingError::InvalidInput(message)),
    }
}

/// Appends `line` and CRLF to the document.
fn push_line(doc: &mut Vec<char>, line: &Vec<char>, Ghost(lines): Ghost<Seq<Seq<char>>>)
    requires
        old(doc)@ == ics_join(lines),
    ensures
        final(doc)@ == ics_join(lines.push(line@)),
{
    push_chars(doc, line);
    doc.push('\r');
    doc.push('\n');
    proof {
        assert(lines.push(line@).drop_last() =~= lines);
        assert(final(doc)@ =~= ics_join(lines) + line@ + crlf());
    }
}

/// The `ATTENDEE` line of an attendee with an email address.
fn attendee_row(a: &MeetingAttendee, email: &String) -> (r: Vec<char>)
    ensures
        r@ == attendee_line(*a, email@),
{
    let role = chars_of(a.role.as_str());
    let mut out = chars_of("ATTENDEE;ROLE=");
    if eq_str(&role, "host") {
        push_str(&mut out, "CHAIR");
    } else if eq_str(&role, "optional") {
        push_str(&mut out, "OPT-PARTICIPANT");
    } else {
        push_str(&mut out, "REQ-PARTICIPANT");
    }
    push_str(&mut out, ";CN=");
    let cn = match &a.display_name {
        Some(d) => chars_of(d.as_str()),
        None => chars_of(email.as_str()),
    };
    let escaped = escape_parameter(&cn);
    push_chars(&mut out, &escaped);
    push_str(&mut out, ":mailto:");
    push_str(&mut out, email.as_str());
    out
}

/// The invitation of a meeting as an iCalendar document, stamped at
/// `generated_at`. The stored start and end times must parse.
pub fn meeting_invite_ics(bundle: &MeetingBundle, public_url: &str, generated_at: (i64, u32)) -> (r: Result<String, MeetingError>)
    requires
        chrono_representable(generated_at.0, generated_at.1),
    ensures
        match rfc3339_instant(bundle.meeting.starts_at@) {
            None => r == Err::<String, MeetingError>(MeetingError::InvalidInput("meeting starts_at is invalid")),
            Some(s) => match rfc3339_instant(bundle.meeting.ends_at@) {
                None => r == Err::<String, MeetingError>(MeetingError::InvalidInput("meeting ends_at is invalid")),
                Some(e) => r matches Ok(text) && text@ == ics_join(invite_lines(*bundle, public_url@, generated_at, s, e)),
            },
        },
{
    let m = &bundle.meeting;
    let join = join_url(public_url, m.join_slug.as_str());
    let join_text = string_of(&join);
    let mut description = match &m.description {
        Some(d) => {
            let mut v = chars_of(d.as_str());
            push_str(&mut v, "\n\nJoin: ");
            v
        },
        None => chars_of("Join: "),
    };
    push_chars(&mut description, &join);
    let stamp = match format_ics(generated_at.0, generated_at.1) {
        Some(s) => chars_of(s.as_str()),
        None => Vec::new(),
    };
    let start = meeting_time(m.starts_at.as_str(), "meeting starts_at is invalid")?;
    let end = meeting_time(m.ends_at.as_str(), "meeting ends_at is invalid")?;
    let ghost starts = rfc3339_instant(m.starts_at@)->0;
    let ghost ends = rfc3339_instant(m.ends_at@)->0;
    let ghost all = invite_lines(*bundle, public_url@, generated_at, starts, ends);

    let mut doc: Vec<char> = Vec::new();
    let ghost mut lines: Seq<Seq<char>> = Seq::empty();
    let mut line = chars_of("BEGIN:VCALENDAR");
    push_line(&mut doc, &line, Ghost(lines));
    proof { lines = lines.push(line@); }
    line = chars_of("VERSION:2.0");
    push_line(&mut doc, &line, Ghost(lines));
    proof { lines = lines.push(line@); }
    line = chars_of("PRODID:-//OpenCord//OpenCord Calendar//EN");
    push_line(&mut doc, &line, Ghost(lines));
    proof { lines = lines.push(line@); }
    line = chars_of("CALSCALE:GREGORIAN");
    push_line(&mut doc, &line, Ghost(lines));
    proof { lines = lines.push(line@); }
    line = chars_of("METHOD:PUBLISH");
    push_line(&mut doc, &line, Ghost(lines));
    proof { lines = lines.push(line@); }
    line = chars_of("BEGIN:VEVENT");
    push_line(&mut doc, &line, Ghost(lines));
    proof { lines = lines.push(line@); }
    line = chars_of("UID:");
    let uid = uuid_to_string(m.id);
    push_str(&mut line, uid.as_str());
    push_str(&mut line, "@opencord");
    push_line(&mut doc, &line, Ghost(lines));
    proof { lines = lines.push(line@); }
    line = chars_of("DTSTAMP:");
    push_chars(&mut line, &stamp);
    push_line(&mut doc, &line, Ghost(lines));
    proof { lines = lines.push(line@); }
    line = chars_of("DTSTART:");
    push_chars(&mut line, &start);
    push_line(&mut doc, &line, Ghost(lines));
    proof { lines = lines.push(line@); }
    line = chars_of("DTEND:");
    push_chars(&mut line, &end);
    push_line(&mut doc, &line, Ghost(lines));
    proof { lines = lines.push(line@); }
    line = chars_of("SUMMARY:");
    push_chars(&mut line, &escape_text(&chars_of(m.title.as_str())));
    push_line(&mut doc, &line, Ghost(lines));
    proof { lines = lines.push(line@); }
    line = chars_of("DESCRIPTION:");
    push_chars(&mut line, &escape_text(&description));
    push_line(&mut doc, &line, Ghost(lines));
    proof { lines = lines.push(line@); }
    line = chars_of("LOCATION:");
    push_chars(&mut line, &escape_text(&join));
    push_line(&mut doc, &line, Ghost(lines));
    proof { lines = lines.push(line@); }
    line = chars_of("URL:");
    push_chars(&mut line, &join);
    push_line(&mut doc, &line, Ghost(lines));
    proof { lines = lines.push(line@); }
    line = chars_of("STATUS:");
    if eq_str(&chars_of(m.status.as_str()), "cancelled") {
        push_str(&mut line, "CANCELLED");
    } else {
        push_str(&mut line, "CONFIRMED");
    }
    push_line(&mut doc, &line, Ghost(lines));
    proof {
        lines = lines.push(line@);
        assert(lines =~= all.take(15));
    }

    let atts = &bundle.attendees;
    let mut i: usize = 0;
    proof {
        assert(atts@.take(0) =~= Seq::<MeetingAttendee>::empty());
        assert(lines =~= all.take(15) + attendee_lines(atts@.take(0)));
    }
    while i < atts.len()
        invariant
            i <= atts.len(),
            atts@ == bundle.attendees@,
            all == invite_lines(*bundle, public_url@, generated_at, starts, ends),
            lines == all.take(15) + attendee_lines(atts@.take(i as int)),
            doc@ == ics_join(lines),
        decreases atts.len() - i,
    {
        let a = &atts[i];
        proof {
            assert(atts@.take(i as int + 1).drop_last() =~= atts@.take(i as int));
            assert(atts@.take(i as int + 1).last() == atts@[i as int]);
        }
        match &a.email {
            Some(email) => {
                let row = attendee_row(a, email);
                push_line(&mut doc, &row, Ghost(lines));
                proof {
                    lines = lines.push(row@);
                }
            },
            None => {},
        }
        i += 1;
    }
    proof {
        assert(atts@.take(atts@.len() as int) =~= atts@);
    }
    line = chars_of("END:VEVENT");
    push_line(&mut doc, &line, Ghost(lines));
    proof { lines = lines.push(line@); }
    line = chars_of("END:VCALENDAR");
    push_line(&mut doc, &line, Ghost(lines));
    proof {
        lines = lines.push(line@);
        assert(lines =~= all);
    }
    Ok(string_of(&doc))
}

/// The invitation of a meeting stamped with the current time.
pub fn meeting_invite_ics_now(bundle: &MeetingBundle, public_url: &str) -> (r: Result<String, MeetingError>)
    ensures
        match rfc3339_instant(bundle.meeting.starts_at@) {
            None => r == Err::<String, MeetingError>(MeetingError::InvalidInput("meeting starts_at is invalid")),
            Some(s) => match rfc3339_instant(bundle.meeting.ends_at@) {
                None => r == Err::<String, MeetingError>(MeetingError::InvalidInput("meeting ends_at is invalid")),
                Some(e) => r matches Ok(text) && exists|stamp: (i64, u32)| text@ == ics_join(
                    #[trigger] invite_lines(*bundle, public_url@, stamp, s, e),
                ),
            },
        },
{
    let now = now_utc();
    meeting_invite_ics(bundle, public_url, now)
}

/// How many attendees have an email.
pub open spec fn emailed_attendees(attendees: Seq<MeetingAttendee>) -> nat
    decreases attendees.len(),
{
    if attendees.len() == 0 {
        0
    } else {
        emailed_attendees(attendees.drop_last()) + if attendees.last().email is Some {
            1nat
        } else {
            0nat
        }
    }
}

proof fn lemma_attendee_lines_len(attendees: Seq<MeetingAttendee>)
    ensures
        attendee_lines(attendees).len() == emailed_attendees(attendees),
    decreases attendees.len(),
{
    if attendees.len() > 0 {
        lemma_attendee_lines_len(attendees.drop_last());
    }
}

/// Joining two runs of lines joins their texts.
pub proof fn lemma_ics_join_append(a: Seq<Seq<char>>, b: Seq<Seq<char>>)
    ensures
        ics_join(a + b) == ics_join(a) + ics_join(b),
    decreases b.len(),
{
    if b.len() == 0 {
        assert(a + b =~= a);
        assert(ics_join(a) + ics_join(b) =~= ics_join(a));
    } else {
        lemma_ics_join_append(a, b.drop_last());
        assert((a + b).drop_last() =~= a + b.drop_last());
        assert((a + b).last() == b.last());
        assert(ics_join(a) + ics_join(b) =~= ics_join(a) + ics_join(b.drop_last()) + b.last() + crlf());
    }
}

/// An invitation opens with `BEGIN:VCALENDAR` and `VERSION:2.0`, closes
/// with `END:VEVENT` and `END:VCALENDAR`, each line followed by CRLF; its
/// fifteenth line is `STATUS:CANCELLED` for a cancelled meeting and
/// `STATUS:CONFIRMED` otherwise; and between that line and the closing two
/// stands one `ATTENDEE` line per attendee with an email, in attendee order.
pub proof fn law_invite_structure(
    bundle: MeetingBundle,
    public_url: Seq<char>,
    stamp: (i64, u32),
    starts: (i64, u32),
    ends: (i64, u32),
)
    ensures
        ({
            let lines = invite_lines(bundle, public_url, stamp, starts, ends);
            let text = ics_join(lines);
            &&& lines.len() == 17 + emailed_attendees(bundle.attendees@)
            &&& lines[0] == "BEGIN:VCALENDAR"@ && lines[1] == "VERSION:2.0"@
            &&& lines[14] == "STATUS:"@ + (if bundle.meeting.status@ == "cancelled"@ {
                "CANCELLED"@
            } else {
                "CONFIRMED"@
            })
            &&& lines.subrange(15, lines.len() - 2) == attendee_lines(bundle.attendees@)
            &&& lines[lines.len() - 2] == "END:VEVENT"@ && lines[lines.len() - 1] == "END:VCALENDAR"@
            &&& ("BEGIN:VCALENDAR"@ + crlf() + "VERSION:2.0"@ + crlf()).is_prefix_of(text)
            &&& text.subrange(text.len() - (23 + 2 * crlf().len()) as int, text.len() as int)
                == "END:VEVENT"@ + crlf() + "END:VCALENDAR"@ + crlf()
        }),
{
    let lines = invite_lines(bundle, public_url, stamp, starts, ends);
    let att = attendee_lines(bundle.attendees@);
    lemma_attendee_lines_len(bundle.attendees@);
    let head = lines.subrange(0, 15);
    let tail = seq!["END:VEVENT"@, "END:VCALENDAR"@];
    assert(lines =~= head + att + tail);
    assert(lines.subrange(15, lines.len() - 2) =~= att);
    // the opening two lines
    let first = seq!["BEGIN:VCALENDAR"@, "VERSION:2.0"@];
    assert(lines =~= first + lines.subrange(2, lines.len() as int));
    lemma_ics_join_append(first, lines.subrange(2, lines.len() as int));
    assert(first.drop_last() =~= seq!["BEGIN:VCALENDAR"@]);
    assert(seq!["BEGIN:VCALENDAR"@].drop_last() =~= Seq::<Seq<char>>::empty());
    assert(ics_join(first) =~= "BEGIN:VCALENDAR"@ + crlf() + "VERSION:2.0"@ + crlf()) by {
        reveal_with_fuel(ics_join, 3);
        assert(ics_join(seq!["BEGIN:VCALENDAR"@]) =~= "BEGIN:VCALENDAR"@ + crlf());
    }
    // the closing two lines
    lemma_ics_join_append(head + att, tail);
    assert(tail.drop_last() =~= seq!["END:VEVENT"@]);
    assert(seq!["END:VEVENT"@].drop_last() =~= Seq::<Seq<char>>::empty());
    let closing = "END:VEVENT"@ + crlf() + "END:VCALENDAR"@ + crlf();
    assert(ics_join(tail) =~= closing) by {
        reveal_with_fuel(ics_join, 3);
        assert(ics_join(seq!["END:VEVENT"@]) =~= "END:VEVENT"@ + crlf());
    }
    reveal_strlit("END:VEVENT");
    reveal_strlit("END:VCALENDAR");
    let text = ics_join(lines);
    assert(closing.len() == 23 + 2 * crlf().len());
    assert(text =~= ics_join(head + att) + closing);
    assert(text.subrange(text.len() - closing.len(), text.len() as int) =~= closing);
}

/// The `ATTENDEE` line of an attendee invites a `"host"` as `ROLE=CHAIR`, an
/// `"optional"` attendee as `ROLE=OPT-PARTICIPANT` and anyone else as
/// `ROLE=REQ-PARTICIPANT`, then names them (`CN`, the display name or else
/// the email) and gives the `mailto:` address.
pub proof fn law_attendee_roles(a: MeetingAttendee, email: Seq<char>)
    ensures
        ({
            let cn = match a.display_name {
                Some(d) => d@,
                None => email,
            };
            let rest = ";CN="@ + escape_parameter_seq(cn) + ":mailto:"@ + email;
            &&& a.role@ == "host"@ ==> attendee_line(a, email) == "ATTENDEE;ROLE="@ + "CHAIR"@ + rest
            &&& a.role@ == "optional"@ ==> attendee_line(a, email) == "ATTENDEE;ROLE="@ + "OPT-PARTICIPANT"@ + rest
            &&& a.role@ != "host"@ && a.role@ != "optional"@ ==> attendee_line(a, email) == "ATTENDEE;ROLE="@
                + "REQ-PARTICIPANT"@ + rest
        }),
{
    let cn = match a.display_name {
        Some(d) => d@,
        None => email,
    };
    reveal_strlit("host");
    reveal_strlit("optional");
    assert("optional"@ != "host"@) by {
        assert("optional"@.len() == 8 && "host"@.len() == 4);
    }
    let r = ics_role(a.role@);
    let rest = ";CN="@ + escape_parameter_seq(cn) + ":mailto:"@ + email;
    assert(attendee_line(a, email) =~= "ATTENDEE;ROLE="@ + r + rest);
}

} // verus!
