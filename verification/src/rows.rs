//! The rows of the conversation store and the selections that the store and
//! the exporter make among them.

use vstd::prelude::*;
use vstd::string::*;

verus! {

/// One conversation.
#[derive(Debug, PartialEq, Eq)]
pub struct Session {
    pub id: u64,
    pub name: String,
    pub created_at: String,
    pub updated_at: String,
}

/// One message of a conversation.
#[derive(Debug, PartialEq, Eq)]
pub struct Message {
    pub id: u64,
    pub session_id: u64,
    pub text: String,
    pub from_user: String,
    pub timestamp: String,
}

impl Clone for Session {
    fn clone(&self) -> (r: Session)
        ensures
            r == *self,
    {
        Session {
            id: self.id,
            name: self.name.clone(),
            created_at: self.created_at.clone(),
            updated_at: self.updated_at.clone(),
        }
    }
}

impl Clone for Message {
    fn clone(&self) -> (r: Message)
        ensures
            r == *self,
    {
        Message {
            id: self.id,
            session_id: self.session_id,
            text: self.text.clone(),
            from_user: self.from_user.clone(),
            timestamp: self.timestamp.clone(),
        }
    }
}

/// The messages that belong to a session.
pub open spec fn in_session(session_id: u64) -> spec_fn(Message) -> bool {
    |m: Message| m.session_id == session_id
}

/// The messages that belong to any other session.
pub open spec fn outside_session(session_id: u64) -> spec_fn(Message) -> bool {
    |m: Message| m.session_id != session_id
}

/// The sessions other than the one with the given identifier.
pub open spec fn other_session(session_id: u64) -> spec_fn(Session) -> bool {
    |s: Session| s.id != session_id
}

/// Whether a session with the given identifier is among the rows.
pub open spec fn has_session(sessions: Seq<Session>, session_id: u64) -> bool {
    exists|i: int| 0 <= i < sessions.len() && #[trigger] sessions[i].id == session_id
}

/// The messages of a session, in the order of the rows.
pub open spec fn messages_of(messages: Seq<Message>, session_id: u64) -> Seq<Message> {
    messages.filter(in_session(session_id))
}

/// What the rows must satisfy: identifiers start at one, were handed out in
/// increasing order and lie below the next one to hand out, so none occurs
/// twice; and every message belongs to a session that is there.
pub open spec fn rows_valid(
    sessions: Seq<Session>,
    messages: Seq<Message>,
    next_session_id: u64,
    next_message_id: u64,
) -> bool {
    &&& next_session_id >= 1
    &&& next_message_id >= 1
    &&& forall|i: int|
        0 <= i < sessions.len() ==> 1 <= (#[trigger] sessions[i]).id < next_session_id
    &&& forall|i: int, j: int|
        0 <= i < j < sessions.len() ==> (#[trigger] sessions[i]).id < (#[trigger] sessions[j]).id
    &&& forall|i: int|
        0 <= i < messages.len() ==> 1 <= (#[trigger] messages[i]).id < next_message_id
    &&& forall|i: int, j: int|
        0 <= i < j < messages.len() ==> (#[trigger] messages[i]).id < (#[trigger] messages[j]).id
    &&& forall|i: int|
        0 <= i < messages.len() ==> has_session(sessions, (#[trigger] messages[i]).session_id)
}

/// Row `x` stands somewhere before row `y`.
pub open spec fn stands_before<A>(s: Seq<A>, x: A, y: A) -> bool {
    exists|i: int, j: int| 0 <= i < j < s.len() && #[trigger] s[i] == x && #[trigger] s[j] == y
}

/// A selection keeps rows in their order: every row of the selection is a row
/// of the list that was asked for, rows that were asked for are kept, and two
/// kept rows stand as they stood before.
pub proof fn lemma_filter_rows<A>(s: Seq<A>, keep: spec_fn(A) -> bool)
    ensures
        forall|i: int|
            0 <= i < s.filter(keep).len() ==> keep(#[trigger] s.filter(keep)[i]) && s.contains(
                s.filter(keep)[i],
            ),
        forall|j: int| 0 <= j < s.len() && keep(s[j]) ==> s.filter(keep).contains(#[trigger] s[j]),
        forall|a: int, b: int|
            0 <= a < b < s.filter(keep).len() ==> #[trigger] stands_before(
                s,
                s.filter(keep)[a],
                s.filter(keep)[b],
            ),
    decreases s.len(),
{
    reveal(Seq::filter);
    let f = s.filter(keep);
    if s.len() > 0 {
        let front = s.drop_last();
        let ff = front.filter(keep);
        lemma_filter_rows(front, keep);
        assert forall|i: int| 0 <= i < f.len() implies keep(#[trigger] f[i]) && s.contains(
            f[i],
        ) by {
            if i < ff.len() {
                assert(front.contains(ff[i]));
                let k = choose|k: int| 0 <= k < front.len() && front[k] == ff[i];
                assert(s[k] == f[i]);
            } else {
                assert(s[s.len() - 1] == f[i]);
            }
        }
        assert forall|j: int| 0 <= j < s.len() && keep(s[j]) implies f.contains(
            #[trigger] s[j],
        ) by {
            if j < front.len() {
                assert(front[j] == s[j]);
                assert(ff.contains(front[j]));
                let k = choose|k: int| 0 <= k < ff.len() && ff[k] == front[j];
                assert(f[k] == s[j]);
            } else {
                assert(f[f.len() - 1] == s[j]);
            }
        }
        assert forall|a: int, b: int| 0 <= a < b < f.len() implies #[trigger] stands_before(
            s,
            f[a],
            f[b],
        ) by {
            if b < ff.len() {
                assert(stands_before(front, ff[a], ff[b]));
                let (i, j) = choose|i: int, j: int|
                    0 <= i < j < front.len() && #[trigger] front[i] == ff[a] && #[trigger] front[j]
                        == ff[b];
                assert(s[i] == f[a] && s[j] == f[b]);
            } else {
                assert(front.contains(ff[a]));
                let i = choose|i: int| 0 <= i < front.len() && front[i] == ff[a];
                let j = s.len() - 1;
                assert(s[i] == f[a] && s[j] == f[b]);
            }
        }
    }
}

/// A selection that asks for every row is the rows themselves.
pub proof fn lemma_filter_all<A>(s: Seq<A>, keep: spec_fn(A) -> bool)
    requires
        forall|i: int| 0 <= i < s.len() ==> keep(#[trigger] s[i]),
    ensures
        s.filter(keep) == s,
    decreases s.len(),
{
    reveal(Seq::filter);
    if s.len() > 0 {
        lemma_filter_all(s.drop_last(), keep);
        assert(s.drop_last().push(s.last()) =~= s);
    }
}

/// A selection that asks for no row is empty.
pub proof fn lemma_filter_none<A>(s: Seq<A>, keep: spec_fn(A) -> bool)
    requires
        forall|i: int| 0 <= i < s.len() ==> !keep(#[trigger] s[i]),
    ensures
        s.filter(keep) == Seq::<A>::empty(),
    decreases s.len(),
{
    reveal(Seq::filter);
    if s.len() > 0 {
        lemma_filter_none(s.drop_last(), keep);
    }
}

/// Copies the messages of one session out of the rows, in their order.
pub fn select_messages(messages: &Vec<Message>, session_id: u64) -> (r: Vec<Message>)
    ensures
        r@ == messages_of(messages@, session_id),
{
    let mut out: Vec<Message> = Vec::new();
    let mut i: usize = 0;
    proof {
        reveal(Seq::filter);
    }
    while i < messages.len()
        invariant
            i <= messages.len(),
            out@ == messages@.subrange(0, i as int).filter(in_session(session_id)),
        decreases messages.len() - i,
    {
        proof {
            messages@.subrange(0, i as int).lemma_filter_push(
                messages@[i as int],
                in_session(session_id),
            );
            assert(messages@.subrange(0, i as int).push(messages@[i as int])
                =~= messages@.subrange(0, i + 1));
        }
        if messages[i].session_id == session_id {
            out.push(messages[i].clone());
        }
        i += 1;
    }
    assert(messages@.subrange(0, i as int) =~= messages@);
    out
}

} // verus!
