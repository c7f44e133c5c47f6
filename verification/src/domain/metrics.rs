//! Media metrics kept by the process and their Prometheus text.
use vstd::prelude::*;

use crate::domain::auth::{lemma_seq_lt_total, lemma_seq_lt_trans, seq_less, seq_lt};
use crate::domain::ids::{uuid_hyphenated, uuid_to_string};
use crate::text::{chars_of, push_chars, push_str, string_of};

verus! {

/// The decimal digit of `d` (below ten).
pub open spec fn digit_char(d: nat) -> char {
    if d == 0 {
        '0'
    } else if d == 1 {
        '1'
    } else if d == 2 {
        '2'
    } else if d == 3 {
        '3'
    } else if d == 4 {
        '4'
    } else if d == 5 {
        '5'
    } else if d == 6 {
        '6'
    } else if d == 7 {
        '7'
    } else if d == 8 {
        '8'
    } else {
        '9'
    }
}

/// The decimal text of `n`, without leading zeros.
pub open spec fn decimal(n: nat) -> Seq<char>
    decreases n,
{
    if n < 10 {
        seq![digit_char(n)]
    } else {
        decimal(n / 10).push(digit_char(n % 10))
    }
}

fn digit_of(d: u64) -> (c: char)
    requires
        d < 10,
    ensures
        c == digit_char(d as nat),
{
    if d == 0 {
        '0'
    } else if d == 1 {
        '1'
    } else if d == 2 {
        '2'
    } else if d == 3 {
        '3'
    } else if d == 4 {
        '4'
    } else if d == 5 {
        '5'
    } else if d == 6 {
        '6'
    } else if d == 7 {
        '7'
    } else if d == 8 {
        '8'
    } else {
        '9'
    }
}

/// The decimal text of `n` (`u64`'s `Display`).
pub fn decimal_of(n: u64) -> (r: Vec<char>)
    ensures
        r@ == decimal(n as nat),
    decreases n,
{
    if n < 10 {
        let mut v: Vec<char> = Vec::new();
        v.push(digit_of(n));
        v
    } else {
        let mut v = decimal_of(n / 10);
        v.push(digit_of(n % 10));
        v
    }
}

/// How `escape_label_value` writes one character.
pub open spec fn label_escape_char(c: char) -> Seq<char> {
    if c == '\\' {
        seq!['\\', '\\']
    } else if c == '\n' {
        seq!['\\', 'n']
    } else if c == '"' {
        seq!['\\', '"']
    } else {
        seq![c]
    }
}

/// A Prometheus label value: backslash, line feed and `"` escaped.
pub open spec fn escape_label(s: Seq<char>) -> Seq<char>
    decreases s.len(),
{
    if s.len() == 0 {
        Seq::empty()
    } else {
        escape_label(s.drop_last()) + label_escape_char(s.last())
    }
}

pub fn escape_label_value(value: &str) -> (r: String)
    ensures
        r@ == escape_label(value@),
{
    let v = chars_of(value);
    let mut out: Vec<char> = Vec::new();
    let mut i: usize = 0;
    while i < v.len()
        invariant
            i <= v.len(),
            out@ == escape_label(v@.take(i as int)),
        decreases v.len() - i,
    {
        let c = v[i];
        if c == '\\' {
            out.push('\\');
            out.push('\\');
        } else if c == '\n' {
            out.push('\\');
            out.push('n');
        } else if c == '"' {
            out.push('\\');
            out.push('"');
        } else {
            out.push(c);
        }
        proof {
            assert(v@.take(i as int + 1).drop_last() =~= v@.take(i as int));
            assert(out@ =~= escape_label(v@.take(i as int)) + label_escape_char(c));
        }
        i += 1;
    }
    proof {
        assert(v@.take(v@.len() as int) =~= v@);
    }
    string_of(&out)
}

/// The voice participants the process knows of in one channel.
#[derive(Clone, Debug, PartialEq, Eq)]
pub struct VoiceChannelParticipants {
    pub organization_id: u128,
    pub space_id: u128,
    pub channel_id: u128,
    pub user_ids: Vec<u128>,
}

/// The order of channel keys: by organization, space, then channel.
pub open spec fn key_lt(a: (u128, u128, u128), b: (u128, u128, u128)) -> bool {
    a.0 < b.0 || (a.0 == b.0 && (a.1 < b.1 || (a.1 == b.1 && a.2 < b.2)))
}

pub open spec fn channel_key(p: VoiceChannelParticipants) -> (u128, u128, u128) {
    (p.organization_id, p.space_id, p.channel_id)
}

/// Strictly increasing ids.
pub open spec fn ids_sorted(v: Seq<u128>) -> bool {
    forall|i: int, j: int| 0 <= i < j < v.len() ==> #[trigger] v[i] < #[trigger] v[j]
}

/// The media metrics of the process (`MediaMetrics`): successful joins,
/// failed joins by reason and the participants by channel, each list in
/// key order. The failures are a sorted `Vec` rather than a `BTreeMap`:
/// vstd specifies `BTreeMap` only for keys that obey its `Ord` model, which
/// it grants to integers and tuples of them but not to text. The
/// participants take the same sorted form, so that the Prometheus text is
/// stated over one representation of both.
#[derive(Clone, Debug, Default)]
pub struct MediaMetrics {
    pub voice_join_success_total: u64,
    pub voice_join_failures_total: Vec<(String, u64)>,
    pub voice_participants: Vec<VoiceChannelParticipants>,
}

/// The count for `reason`, if known, can take one more.
pub open spec fn failure_countable(failures: Seq<(String, u64)>, reason: Seq<char>) -> bool {
    forall|i: int| 0 <= i < failures.len() && failures[i].0@ == reason ==> #[trigger] failures[i].1 < u64::MAX
}

/// `after` is `before` with one more failure for `reason`: its count raised
/// by one, or a new entry with one at its place in key order.
pub open spec fn failure_counted(before: Seq<(String, u64)>, after: Seq<(String, u64)>, reason: Seq<char>) -> bool {
    ||| exists|p: int|
        0 <= p < before.len() && before[p].0@ == reason && after.len() == before.len() && after[p].0@ == reason
            && after[p].1 == before[p].1 + 1 && forall|k: int|
            0 <= k < before.len() && k != p ==> #[trigger] after[k] == before[k]
    ||| (forall|k: int| 0 <= k < before.len() ==> #[trigger] before[k].0@ != reason) && exists|p: int|
        0 <= p <= before.len() && after.len() == before.len() + 1 && after[p].0@ == reason && after[p].1 == 1
            && (forall|k: int| 0 <= k < p ==> #[trigger] after[k] == before[k]) && forall|k: int|
            p < k < after.len() ==> #[trigger] after[k] == before[k - 1]
}

impl MediaMetrics {
    /// Each list is in strictly increasing key order, and each channel's
    /// user ids too.
    pub open spec fn wf(&self) -> bool {
        &&& forall|i: int, j: int|
            0 <= i < j < self.voice_join_failures_total@.len() ==> seq_lt(
                #[trigger] self.voice_join_failures_total@[i].0@,
                #[trigger] self.voice_join_failures_total@[j].0@,
            )
        &&& forall|i: int, j: int|
            0 <= i < j < self.voice_participants@.len() ==> key_lt(
                channel_key(#[trigger] self.voice_participants@[i]),
                channel_key(#[trigger] self.voice_participants@[j]),
            )
        &&& forall|i: int|
            0 <= i < self.voice_participants@.len() ==> ids_sorted(#[trigger] self.voice_participants@[i].user_ids@)
    }

    pub fn new() -> (r: MediaMetrics)
        ensures
            r.wf(),
            r.voice_join_success_total == 0,
            r.voice_join_failures_total@.len() == 0,
            r.voice_participants@.len() == 0,
    {
        MediaMetrics { voice_join_success_total: 0, voice_join_failures_total: Vec::new(), voice_participants: Vec::new() }
    }

    /// Counts a successful join; the counter wraps as an atomic add does.
    pub fn record_voice_join_success(&mut self)
        ensures
            final(self).voice_join_success_total == (if old(self).voice_join_success_total == u64::MAX {
                0
            } else {
                (old(self).voice_join_success_total + 1) as u64
            }),
            final(self).voice_join_failures_total == old(self).voice_join_failures_total,
            final(self).voice_participants == old(self).voice_participants,
    {
        self.voice_join_success_total = self.voice_join_success_total.wrapping_add(1);
    }

    /// Counts a failed join for `reason`: one more for a known reason, else a
    /// new entry with one, in key order.
    pub fn record_voice_join_failure(&mut self, reason: &str)
        requires
            old(self).wf(),
            failure_countable(old(self).voice_join_failures_total@, reason@),
        ensures
            final(self).wf(),
            final(self).voice_join_success_total == old(self).voice_join_success_total,
            final(self).voice_participants == old(self).voice_participants,
            failure_counted(old(self).voice_join_failures_total@, final(self).voice_join_failures_total@, reason@),
    {
        let key = chars_of(reason);
        let ghost before = self.voice_join_failures_total@;
        let mut p: usize = 0;
        while p < self.voice_join_failures_total.len()
            && seq_less(&chars_of(self.voice_join_failures_total[p].0.as_str()), &key)
            invariant
                p <= self.voice_join_failures_total@.len(),
                self.voice_join_failures_total@ == before,
                key@ == reason@,
                forall|k: int| 0 <= k < p ==> seq_lt(#[trigger] before[k].0@, key@),
            decreases self.voice_join_failures_total@.len() - p,
        {
            p += 1;
        }
        if p < self.voice_join_failures_total.len()
            && eq_text(&chars_of(self.voice_join_failures_total[p].0.as_str()), &key) {
            let count = self.voice_join_failures_total[p].1;
            let name = self.voice_join_failures_total[p].0.clone();
            self.voice_join_failures_total.set(p, (name, count + 1));
            proof {
                let after = self.voice_join_failures_total@;
                assert forall|i: int, j: int|
                    0 <= i < j < after.len() implies seq_lt(#[trigger] after[i].0@, #[trigger] after[j].0@) by {
                    assert(before[i].0@ == after[i].0@);
                    assert(before[j].0@ == after[j].0@);
                }
                assert(after[p as int].0@ == reason@);
            }
            return;
        }
        proof {
            if p < before.len() {
                lemma_seq_lt_total(before[p as int].0@, key@);
            }
            assert forall|k: int| 0 <= k < before.len() implies #[trigger] before[k].0@ != reason@ by {
                if k < p {
                    lemma_seq_lt_total(before[k].0@, key@);
                } else if k > p {
                    lemma_seq_lt_trans(key@, before[p as int].0@, before[k].0@);
                    lemma_seq_lt_total(key@, before[k].0@);
                } else {
                    lemma_seq_lt_total(key@, before[k].0@);
                }
            }
        }
        let entry = (string_of(&key), 1u64);
        self.voice_join_failures_total.insert(p, entry);
        proof {
            let after = self.voice_join_failures_total@;
            assert(after =~= before.insert(p as int, entry));
            assert forall|i: int, j: int|
                0 <= i < j < after.len() implies seq_lt(#[trigger] after[i].0@, #[trigger] after[j].0@) by {
                if j < p {
                } else if j == p {
                } else if i < p {
                    if j - 1 == p as int {
                        lemma_seq_lt_trans(before[i].0@, key@, before[j - 1].0@);
                    } else {
                        lemma_seq_lt_trans(before[i].0@, key@, before[p as int].0@);
                        lemma_seq_lt_trans(before[i].0@, before[p as int].0@, before[j - 1].0@);
                    }
                } else if i == p {
                    if j - 1 == p as int {
                    } else {
                        lemma_seq_lt_trans(key@, before[p as int].0@, before[j - 1].0@);
                    }
                } else {
                }
            }
            assert(after[p as int].0@ == reason@);
        }
    }

    /// Counts a failed join for `reason` unless its count is already at the
    /// largest `u64`, where one more would overflow; says whether it counted.
    pub fn try_record_voice_join_failure(&mut self, reason: &str) -> (recorded: bool)
        requires
            old(self).wf(),
        ensures
            recorded == failure_countable(old(self).voice_join_failures_total@, reason@),
            final(self).wf(),
            final(self).voice_join_success_total == old(self).voice_join_success_total,
            final(self).voice_participants == old(self).voice_participants,
            recorded ==> failure_counted(old(self).voice_join_failures_total@, final(self).voice_join_failures_total@, reason@),
            !recorded ==> final(self).voice_join_failures_total == old(self).voice_join_failures_total,
    {
        let key = chars_of(reason);
        let mut i: usize = 0;
        while i < self.voice_join_failures_total.len()
            invariant
                i <= self.voice_join_failures_total@.len(),
                key@ == reason@,
                self.wf(),
                *self == *old(self),
                forall|k: int|
                    0 <= k < i && self.voice_join_failures_total@[k].0@ == reason@ ==> #[trigger] self.voice_join_failures_total@[k].1 < u64::MAX,
            decreases self.voice_join_failures_total@.len() - i,
        {
            if self.voice_join_failures_total[i].1 == u64::MAX
                && eq_text(&chars_of(self.voice_join_failures_total[i].0.as_str()), &key) {
                return false;
            }
            i += 1;
        }
        self.record_voice_join_failure(reason);
        true
    }

    /// Notes that `user_id` joined the voice channel: the user is added to
    /// the channel's ids, the channel to the list if it is new.
    pub fn record_voice_participant_joined(&mut self, organization_id: u128, space_id: u128, channel_id: u128, user_id: u128)
        requires
            old(self).wf(),
        ensures
            final(self).wf(),
            final(self).voice_join_success_total == old(self).voice_join_success_total,
            final(self).voice_join_failures_total == old(self).voice_join_failures_total,
            ({
                let key = (organization_id, space_id, channel_id);
                let before = old(self).voice_participants@;
                let after = final(self).voice_participants@;
                ||| exists|p: int|
                    0 <= p < before.len() && channel_key(before[p]) == key && after.len() == before.len()
                        && channel_key(after[p]) == key
                        && after[p].user_ids@.to_set() == before[p].user_ids@.to_set().insert(user_id)
                        && forall|k: int| 0 <= k < before.len() && k != p ==> #[trigger] after[k] == before[k]
                ||| (forall|k: int| 0 <= k < before.len() ==> channel_key(#[trigger] before[k]) != key) && exists|p: int|
                    0 <= p <= before.len() && after.len() == before.len() + 1 && channel_key(after[p]) == key
                        && after[p].user_ids@ == seq![user_id]
                        && (forall|k: int| 0 <= k < p ==> #[trigger] after[k] == before[k])
                        && forall|k: int| p < k < after.len() ==> #[trigger] after[k] == before[k - 1]
            }),
    {
        let ghost key = (organization_id, space_id, channel_id);
        let ghost before = self.voice_participants@;
        let mut p: usize = 0;
        while p < self.voice_participants.len() && key_less(
            (self.voice_participants[p].organization_id, self.voice_participants[p].space_id, self.voice_participants[p].channel_id),
            (organization_id, space_id, channel_id),
        )
            invariant
                p <= self.voice_participants@.len(),
                self.voice_participants@ == before,
                key == (organization_id, space_id, channel_id),
                forall|k: int| 0 <= k < p ==> key_lt(channel_key(#[trigger] before[k]), key),
            decreases self.voice_participants@.len() - p,
        {
            p += 1;
        }
        if p < self.voice_participants.len() && self.voice_participants[p].organization_id == organization_id
            && self.voice_participants[p].space_id == space_id && self.voice_participants[p].channel_id == channel_id {
            let mut entry = self.voice_participants.remove(p);
            let ghost old_ids = entry.user_ids@;
            proof {
                assert(before[p as int] == entry);
                assert(ids_sorted(old_ids));
            }
            insert_id_sorted(&mut entry.user_ids, user_id);
            let ghost new_entry = entry;
            self.voice_participants.insert(p, entry);
            proof {
                let after = self.voice_participants@;
                assert(after =~= before.update(p as int, new_entry));
                assert forall|i: int, j: int|
                    0 <= i < j < after.len() implies key_lt(channel_key(#[trigger] after[i]), channel_key(#[trigger] after[j])) by {
                    assert(channel_key(after[i]) == channel_key(before[i]));
                    assert(channel_key(after[j]) == channel_key(before[j]));
                }
                assert forall|i: int| 0 <= i < after.len() implies ids_sorted(#[trigger] after[i].user_ids@) by {
                    if i != p {
                        assert(after[i] == before[i]);
                    }
                }
                assert(channel_key(after[p as int]) == key);
            }
            return;
        }
        let mut ids: Vec<u128> = Vec::new();
        ids.push(user_id);
        let entry = VoiceChannelParticipants { organization_id, space_id, channel_id, user_ids: ids };
        proof {
            assert forall|k: int| 0 <= k < before.len() implies channel_key(#[trigger] before[k]) != key by {
                if k > p {
                    assert(key_lt(channel_key(before[p as int]), channel_key(before[k])));
                }
            }
            assert(entry.user_ids@ =~= seq![user_id]);
        }
        self.voice_participants.insert(p, entry);
        proof {
            let after = self.voice_participants@;
            assert(after =~= before.insert(p as int, entry));
            assert forall|i: int, j: int|
                0 <= i < j < after.len() implies key_lt(channel_key(#[trigger] after[i]), channel_key(#[trigger] after[j])) by {
                if j < p {
                } else if j == p {
                } else if i < p {
                    assert(after[j] == before[j - 1]);
                    if j - 1 > p as int {
                        assert(key_lt(channel_key(before[p as int]), channel_key(before[j - 1])));
                    }
                } else if i == p {
                    assert(after[j] == before[j - 1]);
                    if j - 1 > p as int {
                        assert(key_lt(channel_key(before[p as int]), channel_key(before[j - 1])));
                    }
                } else {
                    assert(after[i] == before[i - 1]);
                    assert(after[j] == before[j - 1]);
                }
            }
            assert forall|i: int| 0 <= i < after.len() implies ids_sorted(#[trigger] after[i].user_ids@) by {
                if i < p {
                    assert(after[i] == before[i]);
                } else if i > p {
                    assert(after[i] == before[i - 1]);
                }
            }
            assert(channel_key(after[p as int]) == key);
        }
    }

    /// The metrics in the Prometheus text format.
    pub fn render_prometheus(&self) -> (r: String)
        ensures
            r@ == prometheus_text(*self),
    {
        let mut out = chars_of("# HELP opencord_media_voice_join_success_total Successful voice channel joins.\n");
        push_str(&mut out, "# TYPE opencord_media_voice_join_success_total counter\n");
        push_str(&mut out, "opencord_media_voice_join_success_total ");
        push_chars(&mut out, &decimal_of(self.voice_join_success_total));
        push_str(&mut out, "\n");
        push_str(&mut out, "# HELP opencord_media_voice_join_failures_total Failed voice channel joins.\n");
        push_str(&mut out, "# TYPE opencord_media_voice_join_failures_total counter\n");
        let ghost head = out@;
        proof {
            assert(self.voice_join_failures_total@.take(0) =~= Seq::<(String, u64)>::empty());
        }
        let mut i: usize = 0;
        while i < self.voice_join_failures_total.len()
            invariant
                i <= self.voice_join_failures_total@.len(),
                out@ == head + failure_lines(self.voice_join_failures_total@.take(i as int)),
            decreases self.voice_join_failures_total@.len() - i,
        {
            let ghost prev = out@;
            push_str(&mut out, "opencord_media_voice_join_failures_total{reason=\"");
            let escaped = escape_label_value(self.voice_join_failures_total[i].0.as_str());
            push_str(&mut out, escaped.as_str());
            push_str(&mut out, "\"} ");
            push_chars(&mut out, &decimal_of(self.voice_join_failures_total[i].1));
            push_str(&mut out, "\n");
            proof {
                let s = self.voice_join_failures_total@.take(i as int + 1);
                assert(s.drop_last() =~= self.voice_join_failures_total@.take(i as int));
                assert(out@ =~= prev + failure_line(s.last()));
                assert(out@ =~= head + failure_lines(s));
            }
            i += 1;
        }
        proof {
            assert(self.voice_join_failures_total@.take(self.voice_join_failures_total@.len() as int) =~= self.voice_join_failures_total@);
        }
        push_str(&mut out, "# HELP opencord_media_voice_participants_current Process-known voice participants by channel.\n");
        push_str(&mut out, "# TYPE opencord_media_voice_participants_current gauge\n");
        let ghost mid = out@;
        proof {
            assert(self.voice_participants@.take(0) =~= Seq::<VoiceChannelParticipants>::empty());
        }
        let mut j: usize = 0;
        while j < self.voice_participants.len()
            invariant
                j <= self.voice_participants@.len(),
                out@ == mid + participant_lines(self.voice_participants@.take(j as int)),
            decreases self.voice_participants@.len() - j,
        {
            let ghost prev = out@;
            let p = &self.voice_participants[j];
            push_str(&mut out, "opencord_media_voice_participants_current{organization_id=\"");
            push_str(&mut out, uuid_to_string(p.organization_id).as_str());
            push_str(&mut out, "\",space_id=\"");
            push_str(&mut out, uuid_to_string(p.space_id).as_str());
            push_str(&mut out, "\",channel_id=\"");
            push_str(&mut out, uuid_to_string(p.channel_id).as_str());
            push_str(&mut out, "\"} ");
            push_chars(&mut out, &decimal_of(p.user_ids.len() as u64));
            push_str(&mut out, "\n");
            proof {
                let s = self.voice_participants@.take(j as int + 1);
                assert(s.drop_last() =~= self.voice_participants@.take(j as int));
                assert(out@ =~= prev + participant_line(s.last()));
                assert(out@ =~= mid + participant_lines(s));
            }
            j += 1;
        }
        proof {
            assert(self.voice_participants@.take(self.voice_participants@.len() as int) =~= self.voice_participants@);
        }
        string_of(&out)
    }
}

/// The line for one failure reason.
pub open spec fn failure_line(e: (String, u64)) -> Seq<char> {
    "opencord_media_voice_join_failures_total{reason=\""@ + escape_label(e.0@) + "\"} "@ + decimal(e.1 as nat) + "\n"@
}

pub open spec fn failure_lines(v: Seq<(String, u64)>) -> Seq<char>
    decreases v.len(),
{
    if v.len() == 0 {
        Seq::empty()
    } else {
        failure_lines(v.drop_last()) + failure_line(v.last())
    }
}

/// The line for one channel: its ids and the number of participants.
pub open spec fn participant_line(p: VoiceChannelParticipants) -> Seq<char> {
    "opencord_media_voice_participants_current{organization_id=\""@ + uuid_hyphenated(p.organization_id)
        + "\",space_id=\""@ + uuid_hyphenated(p.space_id) + "\",channel_id=\""@ + uuid_hyphenated(p.channel_id)
        + "\"} "@ + decimal(p.user_ids@.len()) + "\n"@
}

pub open spec fn participant_lines(v: Seq<VoiceChannelParticipants>) -> Seq<char>
    decreases v.len(),
{
    if v.len() == 0 {
        Seq::empty()
    } else {
        participant_lines(v.drop_last()) + participant_line(v.last())
    }
}

/// The Prometheus text of the metrics: the success counter, a line per
/// failure reason and a line per channel, in the stored (key) order.
pub open spec fn prometheus_text(m: MediaMetrics) -> Seq<char> {
    "# HELP opencord_media_voice_join_success_total Successful voice channel joins.\n"@
        + "# TYPE opencord_media_voice_join_success_total counter\n"@
        + "opencord_media_voice_join_success_total "@ + decimal(m.voice_join_success_total as nat) + "\n"@
        + "# HELP opencord_media_voice_join_failures_total Failed voice channel joins.\n"@
        + "# TYPE opencord_media_voice_join_failures_total counter\n"@
        + failure_lines(m.voice_join_failures_total@)
        + "# HELP opencord_media_voice_participants_current Process-known voice participants by channel.\n"@
        + "# TYPE opencord_media_voice_participants_current gauge\n"@
        + participant_lines(m.voice_participants@)
}

fn key_less(a: (u128, u128, u128), b: (u128, u128, u128)) -> (r: bool)
    ensures
        r == key_lt(a, b),
{
    a.0 < b.0 || (a.0 == b.0 && (a.1 < b.1 || (a.1 == b.1 && a.2 < b.2)))
}

fn eq_text(a: &Vec<char>, b: &Vec<char>) -> (r: bool)
    ensures
        r == (a@ == b@),
{
    if a.len() != b.len() {
        return false;
    }
    let mut i: usize = 0;
    while i < a.len()
        invariant
            i <= a.len(),
            a.len() == b.len(),
            forall|k: int| 0 <= k < i ==> a@[k] == b@[k],
        decreases a.len() - i,
    {
        if a[i] != b[i] {
            return false;
        }
        i += 1;
    }
    assert(a@ =~= b@);
    true
}

/// Adds `x` to strictly increasing ids unless it is there.
fn insert_id_sorted(v: &mut Vec<u128>, x: u128)
    requires
        ids_sorted(old(v)@),
    ensures
        ids_sorted(final(v)@),
        final(v)@.to_set() == old(v)@.to_set().insert(x),
{
    let ghost before = v@;
    let mut p: usize = 0;
    while p < v.len() && v[p] < x
        invariant
            p <= v.len(),
            v@ == before,
            forall|k: int| 0 <= k < p ==> #[trigger] before[k] < x,
        decreases v.len() - p,
    {
        p += 1;
    }
    if p < v.len() && v[p] == x {
        proof {
            assert(before.to_set().insert(x) =~= before.to_set());
        }
        return;
    }
    v.insert(p, x);
    proof {
        let after = v@;
        assert(after =~= before.insert(p as int, x));
        assert forall|i: int, j: int| 0 <= i < j < after.len() implies #[trigger] after[i] < #[trigger] after[j] by {
            if j < p {
            } else if j == p {
            } else if i < p {
                assert(after[j] == before[j - 1]);
            } else if i == p {
                assert(after[j] == before[j - 1]);
                assert(before[p as int] > x);
            } else {
                assert(after[i] == before[i - 1]);
                assert(after[j] == before[j - 1]);
            }
        }
        assert forall|y: u128| after.to_set().contains(y) <==> before.to_set().insert(x).contains(y) by {
            if after.to_set().contains(y) {
                let k = choose|k: int| 0 <= k < after.len() && after[k] == y;
                if k < p {
                    assert(before[k] == y);
                } else if k > p {
                    assert(before[k - 1] == y);
                }
            }
            if before.to_set().contains(y) {
                let k = choose|k: int| 0 <= k < before.len() && before[k] == y;
                if k < p {
                    assert(after[k] == y);
                } else {
                    assert(after[k + 1] == y);
                }
            }
            if y == x {
                assert(after[p as int] == x);
            }
        }
        assert(after.to_set() =~= before.to_set().insert(x));
    }
}

} // verus!
