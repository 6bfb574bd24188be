//! The conversation store: sessions and their messages, with identifiers that
//! are never handed out twice and deletion that takes a session's messages
//! along.

use vstd::prelude::*;
use vstd::string::*;
use crate::rows::{
    Session, Message, has_session, messages_of, rows_valid, in_session, outside_session,
    other_session, stands_before, lemma_filter_rows, lemma_filter_all, lemma_filter_none,
    select_messages,
};

verus! {

/// Why the store refused an operation.
#[derive(Debug, Clone, Copy, PartialEq, Eq)]
pub enum StoreError {
    /// The operation names a session that is not in the store.
    ReferentialError,
    /// The store has no identifier left to hand out.
    Exhausted,
}

/// Sessions and messages. A session's `updated_at` is written once, when the
/// session is created; appending a message leaves it as it is.
pub struct ConversationStore {
    sessions: Vec<Session>,
    messages: Vec<Message>,
    next_session_id: u64,
    next_message_id: u64,
}

/// The sessions that are left when one is deleted.
pub open spec fn sessions_without(sessions: Seq<Session>, session_id: u64) -> Seq<Session> {
    sessions.filter(other_session(session_id))
}

/// The messages that are left when a session is deleted.
pub open spec fn messages_without(messages: Seq<Message>, session_id: u64) -> Seq<Message> {
    messages.filter(outside_session(session_id))
}

/// Deleting a session leaves valid rows.
pub proof fn lemma_delete_keeps_rows_valid(
    sessions: Seq<Session>,
    messages: Seq<Message>,
    next_session_id: u64,
    next_message_id: u64,
    session_id: u64,
)
    requires
        rows_valid(sessions, messages, next_session_id, next_message_id),
    ensures
        rows_valid(
            sessions_without(sessions, session_id),
            messages_without(messages, session_id),
            next_session_id,
            next_message_id,
        ),
{
    let s2 = sessions_without(sessions, session_id);
    let m2 = messages_without(messages, session_id);
    lemma_filter_rows(sessions, other_session(session_id));
    lemma_filter_rows(messages, outside_session(session_id));
    assert forall|i: int| 0 <= i < s2.len() implies 1 <= (#[trigger] s2[i]).id
        < next_session_id by {
        assert(sessions.contains(s2[i]));
    }
    assert forall|i: int, j: int| 0 <= i < j < s2.len() implies (#[trigger] s2[i]).id < (
    #[trigger] s2[j]).id by {
        assert(stands_before(sessions, s2[i], s2[j]));
    }
    assert forall|i: int| 0 <= i < m2.len() implies 1 <= (#[trigger] m2[i]).id
        < next_message_id by {
        assert(messages.contains(m2[i]));
    }
    assert forall|i: int, j: int| 0 <= i < j < m2.len() implies (#[trigger] m2[i]).id < (
    #[trigger] m2[j]).id by {
        assert(stands_before(messages, m2[i], m2[j]));
    }
    assert forall|i: int| 0 <= i < m2.len() implies has_session(
        s2,
        (#[trigger] m2[i]).session_id,
    ) by {
        assert(messages.contains(m2[i]));
        assert(outside_session(session_id)(m2[i]));
        let owner = m2[i].session_id;
        assert(has_session(sessions, owner));
        let k = choose|k: int| 0 <= k < sessions.len() && #[trigger] sessions[k].id == owner;
        assert(other_session(session_id)(sessions[k]));
        assert(s2.contains(sessions[k]));
        let k2 = choose|k2: int| 0 <= k2 < s2.len() && s2[k2] == sessions[k];
        assert(s2[k2].id == owner);
    }
}

/// Once a session is deleted, no message of it is left, whatever messages it
/// had before.
pub proof fn lemma_deleted_session_has_no_messages(messages: Seq<Message>, session_id: u64)
    ensures
        messages_of(messages_without(messages, session_id), session_id) == Seq::<Message>::empty(),
{
    let left = messages_without(messages, session_id);
    lemma_filter_rows(messages, outside_session(session_id));
    assert forall|i: int| 0 <= i < left.len() implies !in_session(session_id)(
        #[trigger] left[i],
    ) by {
        assert(outside_session(session_id)(left[i]));
    }
    lemma_filter_none(left, in_session(session_id));
}

/// Deleting a session that is not in the store changes nothing.
pub proof fn lemma_delete_absent_changes_nothing(
    sessions: Seq<Session>,
    messages: Seq<Message>,
    next_session_id: u64,
    next_message_id: u64,
    session_id: u64,
)
    requires
        rows_valid(sessions, messages, next_session_id, next_message_id),
        !has_session(sessions, session_id),
    ensures
        sessions_without(sessions, session_id) == sessions,
        messages_without(messages, session_id) == messages,
{
    assert forall|i: int| 0 <= i < sessions.len() implies other_session(session_id)(
        #[trigger] sessions[i],
    ) by {}
    assert forall|i: int| 0 <= i < messages.len() implies outside_session(session_id)(
        #[trigger] messages[i],
    ) by {
        assert(has_session(sessions, messages[i].session_id));
    }
    lemma_filter_all(sessions, other_session(session_id));
    lemma_filter_all(messages, outside_session(session_id));
}

/// A session that was never created, or was deleted, has no messages.
pub proof fn lemma_absent_session_has_no_messages(
    sessions: Seq<Session>,
    messages: Seq<Message>,
    next_session_id: u64,
    next_message_id: u64,
    session_id: u64,
)
    requires
        rows_valid(sessions, messages, next_session_id, next_message_id),
        !has_session(sessions, session_id),
    ensures
        messages_of(messages, session_id) == Seq::<Message>::empty(),
{
    assert forall|i: int| 0 <= i < messages.len() implies !in_session(session_id)(
        #[trigger] messages[i],
    ) by {
        assert(has_session(sessions, messages[i].session_id));
    }
    lemma_filter_none(messages, in_session(session_id));
}

fn copy_other_sessions(sessions: &Vec<Session>, session_id: u64) -> (r: Vec<Session>)
    ensures
        r@ == sessions_without(sessions@, session_id),
{
    let mut out: Vec<Session> = Vec::new();
    let mut i: usize = 0;
    proof {
        reveal(Seq::filter);
    }
    while i < sessions.len()
        invariant
            i <= sessions.len(),
            out@ == sessions@.subrange(0, i as int).filter(other_session(session_id)),
        decreases sessions.len() - i,
    {
        proof {
            sessions@.subrange(0, i as int).lemma_filter_push(
                sessions@[i as int],
                other_session(session_id),
            );
            assert(sessions@.subrange(0, i as int).push(sessions@[i as int])
                =~= sessions@.subrange(0, i + 1));
        }
        if sessions[i].id != session_id {
            out.push(sessions[i].clone());
        }
        i += 1;
    }
    assert(sessions@.subrange(0, i as int) =~= sessions@);
    out
}

fn copy_other_messages(messages: &Vec<Message>, session_id: u64) -> (r: Vec<Message>)
    ensures
        r@ == messages_without(messages@, session_id),
{
    let mut out: Vec<Message> = Vec::new();
    let mut i: usize = 0;
    proof {
        reveal(Seq::filter);
    }
    while i < messages.len()
        invariant
            i <= messages.len(),
            out@ == messages@.subrange(0, i as int).filter(outside_session(session_id)),
        decreases messages.len() - i,
    {
        proof {
            messages@.subrange(0, i as int).lemma_filter_push(
                messages@[i as int],
                outside_session(session_id),
            );
            assert(messages@.subrange(0, i as int).push(messages@[i as int])
                =~= messages@.subrange(0, i + 1));
        }
        if messages[i].session_id != session_id {
            out.push(messages[i].clone());
        }
        i += 1;
    }
    assert(messages@.subrange(0, i as int) =~= messages@);
    out
}

/// Whether a session with the given identifier is among the rows.
pub fn find_session(sessions: &Vec<Session>, session_id: u64) -> (r: bool)
    ensures
        r == has_session(sessions@, session_id),
{
    let mut i: usize = 0;
    while i < sessions.len()
        invariant
            i <= sessions.len(),
            forall|j: int| 0 <= j < i ==> (#[trigger] sessions@[j]).id != session_id,
        decreases sessions.len() - i,
    {
        if sessions[i].id == session_id {
            return true;
        }
        i += 1;
    }
    false
}

/// Whether session rows carry identifiers from one up, in increasing order
/// and below the next one to hand out.
pub open spec fn sessions_in_order(sessions: Seq<Session>, next_session_id: u64) -> bool {
    &&& forall|i: int|
        0 <= i < sessions.len() ==> 1 <= (#[trigger] sessions[i]).id < next_session_id
    &&& forall|i: int, j: int|
        0 <= i < j < sessions.len() ==> (#[trigger] sessions[i]).id < (#[trigger] sessions[j]).id
}

/// Whether message rows carry identifiers from one up, in increasing order
/// and below the next one to hand out.
pub open spec fn messages_in_order(messages: Seq<Message>, next_message_id: u64) -> bool {
    &&& forall|i: int|
        0 <= i < messages.len() ==> 1 <= (#[trigger] messages[i]).id < next_message_id
    &&& forall|i: int, j: int|
        0 <= i < j < messages.len() ==> (#[trigger] messages[i]).id < (#[trigger] messages[j]).id
}

/// Whether every message row belongs to a session that is among the rows.
pub open spec fn messages_owned(sessions: Seq<Session>, messages: Seq<Message>) -> bool {
    forall|i: int|
        0 <= i < messages.len() ==> has_session(sessions, (#[trigger] messages[i]).session_id)
}

/// Checks the identifiers of session rows.
pub fn check_sessions(sessions: &Vec<Session>, next_session_id: u64) -> (r: bool)
    ensures
        r == sessions_in_order(sessions@, next_session_id),
{
    let mut i: usize = 0;
    while i < sessions.len()
        invariant
            i <= sessions.len(),
            sessions_in_order(sessions@.subrange(0, i as int), next_session_id),
        decreases sessions.len() - i,
    {
        let id = sessions[i].id;
        if id < 1 || id >= next_session_id {
            return false;
        }
        if i > 0 && sessions[i - 1].id >= id {
            assert(!(sessions@[i - 1].id < sessions@[i as int].id));
            return false;
        }
        proof {
            let before = sessions@.subrange(0, i as int);
            let after = sessions@.subrange(0, i + 1);
            assert forall|a: int, b: int| 0 <= a < b < after.len() implies (#[trigger] after[a]).id
                < (#[trigger] after[b]).id by {
                if b < i {
                    assert(before[a] == after[a] && before[b] == after[b]);
                } else if a < i - 1 {
                    assert(before[a] == after[a] && before[i - 1] == after[i - 1]);
                }
            }
            assert forall|a: int| 0 <= a < after.len() implies 1 <= (#[trigger] after[a]).id
                < next_session_id by {
                if a < i {
                    assert(before[a] == after[a]);
                }
            }
        }
        i += 1;
    }
    assert(sessions@.subrange(0, i as int) =~= sessions@);
    true
}

/// Checks the identifiers of message rows.
pub fn check_messages(messages: &Vec<Message>, next_message_id: u64) -> (r: bool)
    ensures
        r == messages_in_order(messages@, next_message_id),
{
    let mut i: usize = 0;
    while i < messages.len()
        invariant
            i <= messages.len(),
            messages_in_order(messages@.subrange(0, i as int), next_message_id),
        decreases messages.len() - i,
    {
        let id = messages[i].id;
        if id < 1 || id >= next_message_id {
            return false;
        }
        if i > 0 && messages[i - 1].id >= id {
            assert(!(messages@[i - 1].id < messages@[i as int].id));
            return false;
        }
        proof {
            let before = messages@.subrange(0, i as int);
            let after = messages@.subrange(0, i + 1);
            assert forall|a: int, b: int| 0 <= a < b < after.len() implies (#[trigger] after[a]).id
                < (#[trigger] after[b]).id by {
                if b < i {
                    assert(before[a] == after[a] && before[b] == after[b]);
                } else if a < i - 1 {
                    assert(before[a] == after[a] && before[i - 1] == after[i - 1]);
                }
            }
            assert forall|a: int| 0 <= a < after.len() implies 1 <= (#[trigger] after[a]).id
                < next_message_id by {
                if a < i {
                    assert(before[a] == after[a]);
                }
            }
        }
        i += 1;
    }
    assert(messages@.subrange(0, i as int) =~= messages@);
    true
}

/// Checks that every message row belongs to a session row.
pub fn check_owners(sessions: &Vec<Session>, messages: &Vec<Message>) -> (r: bool)
    ensures
        r == messages_owned(sessions@, messages@),
{
    let mut i: usize = 0;
    while i < messages.len()
        invariant
            i <= messages.len(),
            forall|j: int|
                0 <= j < i ==> has_session(sessions@, (#[trigger] messages@[j]).session_id),
        decreases messages.len() - i,
    {
        if !find_session(sessions, messages[i].session_id) {
            return false;
        }
        i += 1;
    }
    true
}

impl ConversationStore {
    /// A store over rows that were kept elsewhere, together with the next
    /// identifiers to hand out. Rows that break the store's invariant are
    /// refused.
    pub fn restore(
        sessions: Vec<Session>,
        messages: Vec<Message>,
        next_session_id: u64,
        next_message_id: u64,
    ) -> (r: Option<ConversationStore>)
        ensures
            r is Some <==> rows_valid(sessions@, messages@, next_session_id, next_message_id),
            match r {
                Some(store) => {
                    &&& store.wf()
                    &&& store.sessions() == sessions@
                    &&& store.messages() == messages@
                    &&& store.next_session_id() == next_session_id
                    &&& store.next_message_id() == next_message_id
                },
                None => true,
            },
    {
        if next_session_id < 1 || next_message_id < 1 {
            return None;
        }
        if !check_sessions(&sessions, next_session_id) {
            return None;
        }
        if !check_messages(&messages, next_message_id) {
            return None;
        }
        if !check_owners(&sessions, &messages) {
            return None;
        }
        Some(ConversationStore { sessions, messages, next_session_id, next_message_id })
    }

    /// The sessions, in the order in which they were created.
    pub closed spec fn sessions(&self) -> Seq<Session> {
        self.sessions@
    }

    /// The messages of all sessions, in the order in which they were appended.
    pub closed spec fn messages(&self) -> Seq<Message> {
        self.messages@
    }

    /// The identifier that the next session gets.
    pub closed spec fn next_session_id(&self) -> u64 {
        self.next_session_id
    }

    /// The identifier that the next message gets.
    pub closed spec fn next_message_id(&self) -> u64 {
        self.next_message_id
    }

    /// The store's invariant: its rows are valid.
    pub open spec fn wf(&self) -> bool {
        rows_valid(
            self.sessions(),
            self.messages(),
            self.next_session_id(),
            self.next_message_id(),
        )
    }

    /// An empty store, whose first identifiers are one.
    pub fn new() -> (r: ConversationStore)
        ensures
            r.wf(),
            r.sessions() == Seq::<Session>::empty(),
            r.messages() == Seq::<Message>::empty(),
            r.next_session_id() == 1,
            r.next_message_id() == 1,
    {
        ConversationStore {
            sessions: Vec::new(),
            messages: Vec::new(),
            next_session_id: 1,
            next_message_id: 1,
        }
    }

    /// Creates a session with the next identifier and both timestamps set to
    /// `now`, and returns the identifier. Fails only when no identifier is
    /// left, and then changes nothing.
    pub fn create_session(&mut self, name: String, now: String) -> (r: Result<u64, StoreError>)
        requires
            old(self).wf(),
        ensures
            final(self).wf(),
            match r {
                Ok(id) => {
                    &&& old(self).next_session_id() < u64::MAX
                    &&& id == old(self).next_session_id()
                    &&& final(self).next_session_id() == id + 1
                    &&& final(self).next_message_id() == old(self).next_message_id()
                    &&& final(self).messages() == old(self).messages()
                    &&& final(self).sessions() == old(self).sessions().push(
                        Session { id, name, created_at: now, updated_at: now },
                    )
                },
                Err(e) => {
                    &&& old(self).next_session_id() == u64::MAX
                    &&& e == StoreError::Exhausted
                    &&& *final(self) == *old(self)
                },
            },
    {
        if self.next_session_id == u64::MAX {
            return Err(StoreError::Exhausted);
        }
        let id = self.next_session_id;
        let updated_at = now.clone();
        self.sessions.push(Session { id, name, created_at: now, updated_at });
        self.next_session_id = id + 1;
        proof {
            let before = old(self).sessions();
            let after = self.sessions();
            assert forall|i: int| 0 <= i < self.messages().len() implies has_session(
                after,
                (#[trigger] self.messages()[i]).session_id,
            ) by {
                let owner = self.messages()[i].session_id;
                assert(has_session(before, owner));
                let k = choose|k: int| 0 <= k < before.len() && #[trigger] before[k].id == owner;
                assert(after[k].id == owner);
            }
        }
        Ok(id)
    }

    /// Copies of all sessions, in the order in which they were created.
    pub fn list_sessions(&self) -> (r: Vec<Session>)
        ensures
            r@ == self.sessions(),
    {
        let mut out: Vec<Session> = Vec::new();
        let mut i: usize = 0;
        while i < self.sessions.len()
            invariant
                i <= self.sessions.len(),
                out@ == self.sessions@.subrange(0, i as int),
            decreases self.sessions.len() - i,
        {
            out.push(self.sessions[i].clone());
            i += 1;
            assert(out@ =~= self.sessions@.subrange(0, i as int));
        }
        assert(self.sessions@.subrange(0, i as int) =~= self.sessions@);
        out
    }

    /// Whether the store holds a session with the given identifier.
    pub fn contains_session(&self, session_id: u64) -> (r: bool)
        ensures
            r == has_session(self.sessions(), session_id),
    {
        find_session(&self.sessions, session_id)
    }

    /// Appends a message to a session, with the next identifier and `now` as
    /// its timestamp. A session that is not in the store gives
    /// `ReferentialError`; on any failure the store is left as it was.
    pub fn append_message(
        &mut self,
        session_id: u64,
        text: String,
        from_user: String,
        now: String,
    ) -> (r: Result<(), StoreError>)
        requires
            old(self).wf(),
        ensures
            final(self).wf(),
            match r {
                Ok(()) => {
                    &&& has_session(old(self).sessions(), session_id)
                    &&& old(self).next_message_id() < u64::MAX
                    &&& final(self).sessions() == old(self).sessions()
                    &&& final(self).next_session_id() == old(self).next_session_id()
                    &&& final(self).next_message_id() == old(self).next_message_id() + 1
                    &&& final(self).messages() == old(self).messages().push(
                        Message {
                            id: old(self).next_message_id(),
                            session_id,
                            text,
                            from_user,
                            timestamp: now,
                        },
                    )
                },
                Err(e) => {
                    &&& *final(self) == *old(self)
                    &&& e == if has_session(old(self).sessions(), session_id) {
                        StoreError::Exhausted
                    } else {
                        StoreError::ReferentialError
                    }
                    &&& has_session(old(self).sessions(), session_id) ==> old(
                        self,
                    ).next_message_id() == u64::MAX
                },
            },
    {
        if !find_session(&self.sessions, session_id) {
            return Err(StoreError::ReferentialError);
        }
        if self.next_message_id == u64::MAX {
            return Err(StoreError::Exhausted);
        }
        let id = self.next_message_id;
        self.messages.push(Message { id, session_id, text, from_user, timestamp: now });
        self.next_message_id = id + 1;
        Ok(())
    }

    /// Copies of the messages of a session, in the order in which they were
    /// appended. A session that is not in the store has none.
    pub fn list_messages(&self, session_id: u64) -> (r: Vec<Message>)
        requires
            self.wf(),
        ensures
            r@ == messages_of(self.messages(), session_id),
            !has_session(self.sessions(), session_id) ==> r@.len() == 0,
    {
        proof {
            if !has_session(self.sessions(), session_id) {
                lemma_absent_session_has_no_messages(
                    self.sessions(),
                    self.messages(),
                    self.next_session_id(),
                    self.next_message_id(),
                    session_id,
                );
            }
        }
        select_messages(&self.messages, session_id)
    }

    /// Deletes a session together with all of its messages. Where the session
    /// is not in the store, nothing changes. Identifiers are not handed out
    /// again.
    pub fn delete_session(&mut self, session_id: u64)
        requires
            old(self).wf(),
        ensures
            final(self).wf(),
            final(self).sessions() == sessions_without(old(self).sessions(), session_id),
            final(self).messages() == messages_without(old(self).messages(), session_id),
            final(self).next_session_id() == old(self).next_session_id(),
            final(self).next_message_id() == old(self).next_message_id(),
            !has_session(final(self).sessions(), session_id),
            messages_of(final(self).messages(), session_id) == Seq::<Message>::empty(),
            !has_session(old(self).sessions(), session_id) ==> final(self).sessions() == old(
                self,
            ).sessions() && final(self).messages() == old(self).messages(),
    {
        let sessions = copy_other_sessions(&self.sessions, session_id);
        let messages = copy_other_messages(&self.messages, session_id);
        proof {
            lemma_delete_keeps_rows_valid(
                self.sessions(),
                self.messages(),
                self.next_session_id(),
                self.next_message_id(),
                session_id,
            );
            lemma_deleted_session_has_no_messages(self.messages(), session_id);
            lemma_filter_rows(self.sessions(), other_session(session_id));
            assert forall|i: int| 0 <= i < sessions@.len() implies (#[trigger] sessions@[i]).id
                != session_id by {
                assert(other_session(session_id)(sessions@[i]));
            }
            if !has_session(self.sessions(), session_id) {
                lemma_delete_absent_changes_nothing(
                    self.sessions(),
                    self.messages(),
                    self.next_session_id(),
                    self.next_message_id(),
                    session_id,
                );
            }
        }
        self.sessions = sessions;
        self.messages = messages;
    }
}

} // verus!
