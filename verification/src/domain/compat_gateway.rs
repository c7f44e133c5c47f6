//! Sessions of the compatibility gateway: created on identify, resumed by
//! the same bot with a sequence it has seen.
use vstd::prelude::*;

use crate::domain::bot::AuthenticatedBot;
use crate::text::chars_of;

verus! {

#[derive(Clone, Debug, PartialEq, Eq)]
pub struct CompatGatewaySession {
    pub session_id: String,
    pub application_id: u128,
    pub organization_id: u128,
    pub bot_user_id: u128,
    pub sequence: i64,
    pub intents: u64,
}

#[derive(Clone, Debug, PartialEq, Eq)]
pub enum CompatGatewayResumeResult {
    Resumed(CompatGatewaySession),
    InvalidSequence,
    NotFound,
}

/// The sessions of the gateway, each id once. They are a `Vec` rather than
/// a map keyed by session id: vstd specifies `HashMap` only for keys that
/// obey its hash model, which it grants to integers and `bool` but not to
/// `String`.
#[derive(Clone, Debug, Default)]
pub struct CompatGatewaySessions {
    sessions: Vec<CompatGatewaySession>,
}

/// The last index of a session with the id, or -1.
pub open spec fn index_of(v: Seq<CompatGatewaySession>, id: Seq<char>) -> int
    decreases v.len(),
{
    if v.len() == 0 {
        -1
    } else if v.last().session_id@ == id {
        v.len() - 1
    } else {
        index_of(v.drop_last(), id)
    }
}

/// No id occurs twice.
pub open spec fn ids_unique(v: Seq<CompatGatewaySession>) -> bool {
    forall|i: int, j: int| 0 <= i < j < v.len() ==> (#[trigger] v[i]).session_id@ != (#[trigger] v[j]).session_id@
}

/// The session with the id, if any.
pub open spec fn session_in(v: Seq<CompatGatewaySession>, id: Seq<char>) -> Option<CompatGatewaySession> {
    let i = index_of(v, id);
    if i >= 0 {
        Some(v[i])
    } else {
        None
    }
}

pub proof fn lemma_index_of(v: Seq<CompatGatewaySession>, id: Seq<char>)
    ensures
        -1 <= index_of(v, id) < v.len(),
        index_of(v, id) >= 0 ==> v[index_of(v, id)].session_id@ == id,
        index_of(v, id) == -1 <==> forall|k: int| 0 <= k < v.len() ==> (#[trigger] v[k]).session_id@ != id,
    decreases v.len(),
{
    if v.len() > 0 {
        lemma_index_of(v.drop_last(), id);
        if v.last().session_id@ != id {
            assert forall|k: int| 0 <= k < v.len() - 1 implies #[trigger] v[k] == v.drop_last()[k] by {}
        }
    }
}

/// With unique ids, the session with an id is the one at any index that
/// holds it.
pub proof fn lemma_session_at(v: Seq<CompatGatewaySession>, i: int)
    requires
        ids_unique(v),
        0 <= i < v.len(),
    ensures
        session_in(v, v[i].session_id@) == Some(v[i]),
{
    lemma_index_of(v, v[i].session_id@);
    let j = index_of(v, v[i].session_id@);
    if j != i {
        if j < i {
            assert(v[j].session_id@ != v[i].session_id@);
        } else {
            assert(v[i].session_id@ != v[j].session_id@);
        }
    }
}

fn same_id(a: &String, b: &Vec<char>) -> (r: bool)
    ensures
        r == (a@ == b@),
{
    let ac = chars_of(a.as_str());
    if ac.len() != b.len() {
        return false;
    }
    let mut i: usize = 0;
    while i < ac.len()
        invariant
            i <= ac.len(),
            ac.len() == b.len(),
            ac@ == a@,
            forall|k: int| 0 <= k < i ==> ac@[k] == b@[k],
        decreases ac.len() - i,
    {
        if ac[i] != b[i] {
            assert(ac@[i as int] != b@[i as int]);
            return false;
        }
        i += 1;
    }
    assert(ac@ =~= b@);
    true
}

fn copy_session(s: &CompatGatewaySession) -> (r: CompatGatewaySession)
    ensures
        r == *s,
{
    CompatGatewaySession {
        session_id: s.session_id.clone(),
        application_id: s.application_id,
        organization_id: s.organization_id,
        bot_user_id: s.bot_user_id,
        sequence: s.sequence,
        intents: s.intents,
    }
}

/// Whether a session belongs to the bot.
pub open spec fn owned_by(s: CompatGatewaySession, bot: AuthenticatedBot) -> bool {
    s.application_id == bot.application_id && s.organization_id == bot.organization_id && s.bot_user_id == bot.bot_user_id
}

/// What resuming gives for the session found (if any), the bot and the
/// client's sequence.
pub open spec fn resume_outcome(found: Option<CompatGatewaySession>, bot: AuthenticatedBot, client_sequence: i64) -> CompatGatewayResumeResult {
    match found {
        None => CompatGatewayResumeResult::NotFound,
        Some(s) => if !owned_by(s, bot) {
            CompatGatewayResumeResult::NotFound
        } else if client_sequence > s.sequence {
            CompatGatewayResumeResult::InvalidSequence
        } else {
            CompatGatewayResumeResult::Resumed(s)
        },
    }
}

/// The larger of two sequences.
pub open spec fn max_seq(a: i64, b: i64) -> i64 {
    if a >= b {
        a
    } else {
        b
    }
}

impl CompatGatewaySessions {
    pub closed spec fn entries(&self) -> Seq<CompatGatewaySession> {
        self.sessions@
    }

    /// The session with the id, if any.
    pub open spec fn session(&self, id: Seq<char>) -> Option<CompatGatewaySession> {
        session_in(self.entries(), id)
    }

    pub open spec fn wf(&self) -> bool {
        ids_unique(self.entries())
    }

    pub fn new() -> (r: CompatGatewaySessions)
        ensures
            r.wf(),
            forall|id: Seq<char>| #[trigger] r.session(id) is None,
    {
        CompatGatewaySessions { sessions: Vec::new() }
    }

    fn find(&self, id: &Vec<char>) -> (r: Option<usize>)
        requires
            self.wf(),
        ensures
            match r {
                Some(i) => i < self.entries().len() && self.entries()[i as int].session_id@ == id@ && self.session(id@)
                    == Some(self.entries()[i as int]),
                None => self.session(id@) is None && forall|k: int|
                    0 <= k < self.entries().len() ==> (#[trigger] self.entries()[k]).session_id@ != id@,
            },
    {
        let mut i: usize = 0;
        while i < self.sessions.len()
            invariant
                i <= self.sessions@.len(),
                ids_unique(self.sessions@),
                forall|k: int| 0 <= k < i ==> (#[trigger] self.sessions@[k]).session_id@ != id@,
            decreases self.sessions@.len() - i,
        {
            if same_id(&self.sessions[i].session_id, id) {
                proof {
                    lemma_session_at(self.sessions@, i as int);
                }
                return Some(i);
            }
            i += 1;
        }
        proof {
            lemma_index_of(self.sessions@, id@);
        }
        None
    }

    /// Records a new session of the bot, replacing any with the same id.
    pub fn create(&mut self, session_id: String, bot: &AuthenticatedBot, sequence: i64, intents: u64) -> (r: CompatGatewaySession)
        requires
            old(self).wf(),
        ensures
            final(self).wf(),
            r.session_id@ == session_id@ && owned_by(r, *bot) && r.sequence == sequence && r.intents == intents,
            final(self).session(session_id@) == Some(r),
            forall|other: Seq<char>| other != session_id@ ==> #[trigger] final(self).session(other) == old(self).session(other),
    {
        let session = CompatGatewaySession {
            session_id,
            application_id: bot.application_id,
            organization_id: bot.organization_id,
            bot_user_id: bot.bot_user_id,
            sequence,
            intents,
        };
        let key = chars_of(session.session_id.as_str());
        let ghost before = self.sessions@;
        match self.find(&key) {
            Some(p) => {
                self.sessions.set(p, copy_session(&session));
                proof {
                    let after = self.sessions@;
                    assert forall|i: int, j: int| 0 <= i < j < after.len() implies (#[trigger] after[i]).session_id@
                        != (#[trigger] after[j]).session_id@ by {
                        assert(after[i].session_id@ == before[i].session_id@);
                        assert(after[j].session_id@ == before[j].session_id@);
                    }
                    lemma_session_at(after, p as int);
                    assert forall|other: Seq<char>| other != session.session_id@ implies #[trigger] session_in(after, other)
                        == session_in(before, other) by {
                        lemma_index_of(before, other);
                        lemma_index_of(after, other);
                        if index_of(before, other) >= 0 {
                            let k = index_of(before, other);
                            assert(k != p);
                            assert(after[k] == before[k]);
                            lemma_session_at(before, k);
                            lemma_session_at(after, k);
                        } else {
                            assert forall|k: int| 0 <= k < after.len() implies (#[trigger] after[k]).session_id@ != other by {
                                if k != p {
                                    assert(after[k] == before[k]);
                                }
                            }
                        }
                    }
                }
            },
            None => {
                self.sessions.push(copy_session(&session));
                proof {
                    let after = self.sessions@;
                    assert(after.drop_last() =~= before);
                    assert(after.last() == session);
                    assert forall|i: int, j: int| 0 <= i < j < after.len() implies (#[trigger] after[i]).session_id@
                        != (#[trigger] after[j]).session_id@ by {
                        if j == before.len() {
                            assert(after[i] == before[i]);
                        } else {
                            assert(after[i] == before[i]);
                            assert(after[j] == before[j]);
                        }
                    }
                    lemma_session_at(after, before.len() as int);
                    assert forall|other: Seq<char>| other != session.session_id@ implies #[trigger] session_in(after, other)
                        == session_in(before, other) by {
                        assert(index_of(after, other) == index_of(before, other));
                        lemma_index_of(before, other);
                        if index_of(before, other) >= 0 {
                            assert(after[index_of(before, other)] == before[index_of(before, other)]);
                        }
                    }
                }
            },
        }
        session
    }

    /// Raises the session's sequence to `sequence` if that is larger; an
    /// unknown id changes nothing.
    pub fn update_sequence(&mut self, session_id: &str, sequence: i64)
        requires
            old(self).wf(),
        ensures
            final(self).wf(),
            match old(self).session(session_id@) {
                Some(s) => final(self).session(session_id@) == Some(CompatGatewaySession { sequence: max_seq(s.sequence, sequence), ..s }),
                None => final(self).session(session_id@) is None,
            },
            forall|other: Seq<char>| other != session_id@ ==> #[trigger] final(self).session(other) == old(self).session(other),
    {
        let key = chars_of(session_id);
        let ghost before = self.sessions@;
        match self.find(&key) {
            Some(p) => {
                let mut s = copy_session(&self.sessions[p]);
                if sequence > s.sequence {
                    s.sequence = sequence;
                }
                self.sessions.set(p, s);
                proof {
                    self.lemma_replaced(before, p as int);
                }
            },
            None => {
                proof {
                    assert(self.sessions@ == before);
                }
            },
        }
    }

    proof fn lemma_replaced(&self, before: Seq<CompatGatewaySession>, p: int)
        requires
            ids_unique(before),
            0 <= p < before.len(),
            self.sessions@ == before.update(p, self.sessions@[p]),
            self.sessions@[p].session_id@ == before[p].session_id@,
        ensures
            self.wf(),
            session_in(self.sessions@, before[p].session_id@) == Some(self.sessions@[p]),
            session_in(before, before[p].session_id@) == Some(before[p]),
            forall|other: Seq<char>| other != before[p].session_id@ ==> #[trigger] session_in(self.sessions@, other)
                == session_in(before, other),
    {
        let after = self.sessions@;
        assert forall|i: int, j: int| 0 <= i < j < after.len() implies (#[trigger] after[i]).session_id@
            != (#[trigger] after[j]).session_id@ by {
            assert(after[i].session_id@ == before[i].session_id@);
            assert(after[j].session_id@ == before[j].session_id@);
        }
        lemma_session_at(after, p);
        lemma_session_at(before, p);
        assert forall|other: Seq<char>| other != before[p].session_id@ implies #[trigger] session_in(after, other)
            == session_in(before, other) by {
            lemma_index_of(before, other);
            lemma_index_of(after, other);
            if index_of(before, other) >= 0 {
                let k = index_of(before, other);
                assert(after[k] == before[k]);
                lemma_session_at(before, k);
                lemma_session_at(after, k);
            } else {
                assert forall|k: int| 0 <= k < after.len() implies (#[trigger] after[k]).session_id@ != other by {
                    if k != p {
                        assert(after[k] == before[k]);
                    }
                }
            }
        }
    }

    /// Resumes the bot's session at the client's sequence: an unknown id or
    /// another bot's session is not found; a sequence beyond the session's
    /// is invalid.
    pub fn resume(&mut self, session_id: &str, bot: &AuthenticatedBot, client_sequence: i64) -> (r: CompatGatewayResumeResult)
        requires
            old(self).wf(),
        ensures
            final(self).wf(),
            forall|other: Seq<char>| #[trigger] final(self).session(other) == old(self).session(other),
            r == resume_outcome(old(self).session(session_id@), *bot, client_sequence),
    {
        let key = chars_of(session_id);
        match self.find(&key) {
            None => CompatGatewayResumeResult::NotFound,
            Some(p) => {
                let s = &self.sessions[p];
                if s.application_id != bot.application_id || s.organization_id != bot.organization_id
                    || s.bot_user_id != bot.bot_user_id {
                    return CompatGatewayResumeResult::NotFound;
                }
                if client_sequence > s.sequence {
                    return CompatGatewayResumeResult::InvalidSequence;
                }
                CompatGatewayResumeResult::Resumed(copy_session(s))
            },
        }
    }
}

/// A session the bot created resumes at any sequence up to its own and
/// refuses a larger one; no other bot can resume it.
pub proof fn law_created_session_resumes(created: CompatGatewaySession, bot: AuthenticatedBot, other: AuthenticatedBot, client_sequence: i64)
    requires
        owned_by(created, bot),
    ensures
        resume_outcome(Some(created), bot, client_sequence) == (if client_sequence <= created.sequence {
            CompatGatewayResumeResult::Resumed(created)
        } else {
            CompatGatewayResumeResult::InvalidSequence
        }),
        !owned_by(created, other) ==> resume_outcome(Some(created), other, client_sequence) == CompatGatewayResumeResult::NotFound,
{
}

/// Raising a session's sequence never lowers it, and reaches at least the
/// sequence given.
pub proof fn law_sequence_never_decreases(s: CompatGatewaySession, sequence: i64)
    ensures
        max_seq(s.sequence, sequence) >= s.sequence,
        max_seq(s.sequence, sequence) >= sequence,
        max_seq(s.sequence, sequence) == s.sequence || max_seq(s.sequence, sequence) == sequence,
{
}

} // verus!
