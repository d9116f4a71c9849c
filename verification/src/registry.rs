//! The session registry: which sessions watch which document, and to whom
//! each event goes.

use vstd::prelude::*;
use dashmap::DashMap;
use crate::change::Change;

verus! {

/// What the sessions that watch a document are told.
#[derive(Debug, Clone, PartialEq, Eq)]
pub enum DocEvent {
    /// Another user opened the document.
    Open { user_id: String, user_name: String, id: i32, session_id: i64 },
    /// The receiver's own subscription stands, under this session id.
    Subscribed { id: i32, session_id: i64 },
    /// A session wrote these changes.
    Write { user_id: String, id: i32, session_id: i64, changes: Vec<Change> },
    /// A session left.
    Close { user_id: String, id: i32, session_id: i64 },
    /// The document was deleted.
    Remove { user_id: String, id: i32 },
}

/// One event and the sessions it is to be delivered to, each on its own:
/// a delivery that fails holds up no other.
#[derive(Debug, Clone, PartialEq, Eq)]
pub struct Broadcast {
    pub targets: Vec<i64>,
    pub event: DocEvent,
}

/// What a new subscription sets off: the announcement to those who watched
/// before, then the confirmation to the new session alone.
#[derive(Debug, Clone, PartialEq, Eq)]
pub struct Subscription {
    pub announce: Broadcast,
    pub confirm: DocEvent,
}

/// What a session's leaving sets off: the notice to those who stay, and
/// whether it was the document's last session.
#[derive(Debug, Clone, PartialEq, Eq)]
pub struct Departure {
    pub notice: Broadcast,
    pub last_out: bool,
}

/// The sessions that a `DashMap` of watched documents holds for each, in
/// the order in which they subscribed.
pub uninterp spec fn watched_docs(m: DashMap<i32, Vec<i64>>) -> Map<i32, Seq<i64>>;

/// The registry in which nobody watches anything.
pub open spec fn nobody() -> Map<i32, Seq<i64>> {
    Map::empty()
}

/// `DashMap::new`: a map that holds nothing.
#[verifier::external_body]
fn watched_new() -> (m: DashMap<i32, Vec<i64>>)
    ensures
        watched_docs(m) == nobody(),
{
    DashMap::new()
}

/// `DashMap::get`: a copy of the sessions under `id`, if there are any.
#[verifier::external_body]
fn watched_get(m: &DashMap<i32, Vec<i64>>, id: i32) -> (found: Option<Vec<i64>>)
    ensures
        found is Some <==> watched_docs(*m).dom().contains(id),
        found matches Some(s) ==> s@ == watched_docs(*m)[id],
{
    m.get(&id).map(|item| copy_sessions(item.value()))
}

/// `DashMap::insert`: afterwards the map holds `sessions` under `id` and is
/// otherwise as before; what `id` had, if anything, is returned.
#[verifier::external_body]
fn watched_insert(
    m: &mut DashMap<i32, Vec<i64>>,
    id: i32,
    sessions: Vec<i64>,
) -> (prev: Option<Vec<i64>>)
    ensures
        watched_docs(*final(m)) == watched_docs(*old(m)).insert(id, sessions@),
        prev is Some <==> watched_docs(*old(m)).dom().contains(id),
        prev matches Some(p) ==> p@ == watched_docs(*old(m))[id],
{
    m.insert(id, sessions)
}

/// `DashMap::remove`: afterwards the map holds nothing under `id` and is
/// otherwise as before; what `id` had, if anything, is returned.
#[verifier::external_body]
fn watched_remove(m: &mut DashMap<i32, Vec<i64>>, id: i32) -> (taken: Option<Vec<i64>>)
    ensures
        watched_docs(*final(m)) == watched_docs(*old(m)).remove(id),
        taken is Some <==> watched_docs(*old(m)).dom().contains(id),
        taken matches Some(t) ==> t@ == watched_docs(*old(m))[id],
{
    m.remove(&id).map(|pair| pair.1)
}

/// The sessions that watch document `doc`; none where nobody does.
pub open spec fn watchers(subs: Map<i32, Seq<i64>>, doc: i32) -> Seq<i64> {
    if subs.dom().contains(doc) {
        subs[doc]
    } else {
        Seq::empty()
    }
}

/// `sessions` with `session` among them: added at the end unless it is there.
pub open spec fn joined(sessions: Seq<i64>, session: i64) -> Seq<i64> {
    if sessions.contains(session) {
        sessions
    } else {
        sessions.push(session)
    }
}

/// `sessions` without `session`, the others in their order.
pub open spec fn without(sessions: Seq<i64>, session: i64) -> Seq<i64>
    decreases sessions.len(),
{
    if sessions.len() == 0 {
        Seq::empty()
    } else if sessions.last() == session {
        without(sessions.drop_last(), session)
    } else {
        without(sessions.drop_last(), session).push(sessions.last())
    }
}

/// The registry after `session` subscribed to `doc`.
pub open spec fn after_join(
    subs: Map<i32, Seq<i64>>,
    doc: i32,
    session: i64,
) -> Map<i32, Seq<i64>> {
    subs.insert(doc, joined(watchers(subs, doc), session))
}

/// The registry after `session` left `doc`: a document that nobody watches
/// any more has no set left.
pub open spec fn after_leave(
    subs: Map<i32, Seq<i64>>,
    doc: i32,
    session: i64,
) -> Map<i32, Seq<i64>> {
    if !subs.dom().contains(doc) {
        subs
    } else if without(subs[doc], session).len() == 0 {
        subs.remove(doc)
    } else {
        subs.insert(doc, without(subs[doc], session))
    }
}

/// Whether `session`'s leaving `doc` leaves the document without a session.
pub open spec fn is_last_out(subs: Map<i32, Seq<i64>>, doc: i32, session: i64) -> bool {
    subs.dom().contains(doc) && without(subs[doc], session).len() == 0
}

/// Every set of sessions holds at least one, and none twice.
pub open spec fn well_formed(subs: Map<i32, Seq<i64>>) -> bool {
    forall|doc: i32| #[trigger]
        subs.dom().contains(doc) ==> subs[doc].len() > 0 && subs[doc].no_duplicates()
}

/// What `without` keeps: never `session`, every other member, nothing new,
/// nothing twice that was there once.
pub proof fn lemma_without(sessions: Seq<i64>, session: i64)
    ensures
        !without(sessions, session).contains(session),
        forall|other: i64| other != session
            ==> (without(sessions, session).contains(other) <==> sessions.contains(other)),
        without(sessions, session).len() <= sessions.len(),
        sessions.no_duplicates() ==> without(sessions, session).no_duplicates(),
        !sessions.contains(session) ==> without(sessions, session) == sessions,
    decreases sessions.len(),
{
    let rest = without(sessions, session);
    if sessions.len() > 0 {
        let front = sessions.drop_last();
        let kept = without(front, session);
        lemma_without(front, session);
        assert(sessions =~= front.push(sessions.last()));
        assert forall|x: i64| sessions.contains(x) <==> front.contains(x) || x == sessions.last() by {
            vstd::seq_lib::lemma_seq_contains_after_push(front, sessions.last(), x);
        }
        if sessions.last() != session {
            assert forall|x: i64| rest.contains(x) <==> kept.contains(x) || x == sessions.last() by {
                vstd::seq_lib::lemma_seq_contains_after_push(kept, sessions.last(), x);
            }
            if sessions.no_duplicates() {
                assert(front.no_duplicates());
                if front.contains(sessions.last()) {
                    let j = choose|j: int| 0 <= j < front.len() && front[j] == sessions.last();
                    assert(sessions[j] == sessions[sessions.len() - 1]);
                }
                assert(!kept.contains(sessions.last()));
                assert forall|a: int, b: int| 0 <= a < rest.len() && 0 <= b < rest.len()
                    && a != b implies rest[a] != rest[b] by {
                    if a < kept.len() && rest[a] == sessions.last() {
                        assert(kept[a] == sessions.last());
                    }
                    if b < kept.len() && rest[b] == sessions.last() {
                        assert(kept[b] == sessions.last());
                    }
                }
            }
            if !sessions.contains(session) {
                assert(!front.contains(session));
                assert(rest =~= sessions);
            }
        } else {
            assert(sessions.contains(session));
            if sessions.no_duplicates() {
                assert(front.no_duplicates());
            }
        }
    } else {
        assert(rest =~= sessions);
    }
}

/// The only session of a document is its last: when it leaves, the
/// document's set is gone.
pub proof fn lemma_only_session_is_last_out(subs: Map<i32, Seq<i64>>, doc: i32, session: i64)
    requires
        subs.dom().contains(doc),
        subs[doc] == seq![session],
    ensures
        is_last_out(subs, doc, session),
        after_leave(subs, doc, session) == subs.remove(doc),
        !after_leave(subs, doc, session).dom().contains(doc),
{
    let only = seq![session];
    assert(only.drop_last() =~= Seq::<i64>::empty());
    assert(without(only.drop_last(), session).len() == 0);
}

/// Joining and leaving keep the registry well formed, and who joined is
/// among the document's sessions with all who were there.
pub proof fn lemma_join_leave(subs: Map<i32, Seq<i64>>, doc: i32, session: i64)
    requires
        well_formed(subs),
    ensures
        well_formed(after_join(subs, doc, session)),
        well_formed(after_leave(subs, doc, session)),
        watchers(after_join(subs, doc, session), doc).contains(session),
        forall|other: i64| watchers(subs, doc).contains(other)
            ==> watchers(after_join(subs, doc, session), doc).contains(other),
        !watchers(after_leave(subs, doc, session), doc).contains(session),
{
    let before = watchers(subs, doc);
    let more = joined(before, session);
    assert forall|x: i64| more.contains(x) <==> before.contains(x) || x == session by {
        vstd::seq_lib::lemma_seq_contains_after_push(before, session, x);
    }
    if !before.contains(session) {
        assert forall|a: int, b: int| 0 <= a < more.len() && 0 <= b < more.len() && a != b
            implies more[a] != more[b] by {
            if a < before.len() && more[a] == session {
                assert(before[a] == session);
            }
            if b < before.len() && more[b] == session {
                assert(before[b] == session);
            }
        }
    }
    lemma_without(before, session);
    assert(!Seq::<i64>::empty().contains(session));
}

/// Whoever subscribed is reached: of three sessions that joined a document,
/// in whatever state the registry was, each is among those to whom an event
/// about the document goes, so what one of them writes reaches the other two.
pub proof fn lemma_subscribers_are_reached(
    subs: Map<i32, Seq<i64>>,
    doc: i32,
    a: i64,
    b: i64,
    c: i64,
)
    requires
        well_formed(subs),
    ensures
        ({
            let all = after_join(after_join(after_join(subs, doc, a), doc, b), doc, c);
            &&& well_formed(all)
            &&& watchers(all, doc).contains(a)
            &&& watchers(all, doc).contains(b)
            &&& watchers(all, doc).contains(c)
        }),
{
    let one = after_join(subs, doc, a);
    let two = after_join(one, doc, b);
    lemma_join_leave(subs, doc, a);
    lemma_join_leave(one, doc, b);
    lemma_join_leave(two, doc, c);
}

/// The registry of watching sessions.
pub struct SessionRegistry {
    doc_streams: DashMap<i32, Vec<i64>>,
}

impl View for SessionRegistry {
    type V = Map<i32, Seq<i64>>;

    closed spec fn view(&self) -> Map<i32, Seq<i64>> {
        watched_docs(self.doc_streams)
    }
}

/// Whether `sessions` holds `session`.
pub fn holds(sessions: &Vec<i64>, session: i64) -> (found: bool)
    ensures
        found == sessions@.contains(session),
{
    let mut i: usize = 0;
    while i < sessions.len()
        invariant
            i <= sessions.len(),
            forall|j: int| 0 <= j < i ==> sessions@[j] != session,
        decreases sessions.len() - i,
    {
        if sessions[i] == session {
            return true;
        }
        i = i + 1;
    }
    false
}

/// The members of `sessions` other than `session`, in their order.
pub fn others(sessions: &Vec<i64>, session: i64) -> (rest: Vec<i64>)
    ensures
        rest@ == without(sessions@, session),
{
    let mut rest: Vec<i64> = Vec::new();
    let mut i: usize = 0;
    while i < sessions.len()
        invariant
            i <= sessions.len(),
            rest@ == without(sessions@.take(i as int), session),
        decreases sessions.len() - i,
    {
        proof {
            assert(sessions@.take(i + 1).drop_last() =~= sessions@.take(i as int));
        }
        if sessions[i] != session {
            rest.push(sessions[i]);
        }
        i = i + 1;
    }
    proof {
        assert(sessions@.take(i as int) =~= sessions@);
    }
    rest
}

/// A copy of `sessions`.
pub fn copy_sessions(sessions: &Vec<i64>) -> (copy: Vec<i64>)
    ensures
        copy@ == sessions@,
{
    let mut copy: Vec<i64> = Vec::new();
    let mut i: usize = 0;
    while i < sessions.len()
        invariant
            i <= sessions.len(),
            copy@ == sessions@.take(i as int),
        decreases sessions.len() - i,
    {
        copy.push(sessions[i]);
        proof {
            assert(copy@ =~= sessions@.take(i + 1));
        }
        i = i + 1;
    }
    proof {
        assert(sessions@.take(i as int) =~= sessions@);
    }
    copy
}

impl SessionRegistry {
    /// Whether every set of sessions holds at least one, and none twice.
    pub open spec fn wf(&self) -> bool {
        well_formed(self@)
    }

    /// A registry in which nobody watches anything.
    pub fn new() -> (registry: Self)
        ensures
            registry@ == nobody(),
            registry.wf(),
    {
        SessionRegistry { doc_streams: watched_new() }
    }

    /// The sessions that `event` about document `doc_id` goes to: all that
    /// watch it now.
    pub fn broadcast(&self, doc_id: i32, event: DocEvent) -> (out: Broadcast)
        ensures
            out.targets@ == watchers(self@, doc_id),
            out.event == event,
    {
        match watched_get(&self.doc_streams, doc_id) {
            None => Broadcast { targets: Vec::new(), event },
            Some(targets) => Broadcast { targets, event },
        }
    }

    /// Subscribes `session_id` to document `doc_id` for the user `user_id`.
    /// Those who watched before are told who opens the document; the new
    /// session joins them; the confirmation goes to it alone, last.
    pub fn subscribe(
        &mut self,
        doc_id: i32,
        session_id: i64,
        user_id: String,
        user_name: String,
    ) -> (out: Subscription)
        ensures
            old(self).wf() ==> final(self).wf(),
            final(self)@ == after_join(old(self)@, doc_id, session_id),
            out.announce.targets@ == watchers(old(self)@, doc_id),
            out.announce.event == (DocEvent::Open { user_id, user_name, id: doc_id, session_id }),
            out.confirm == (DocEvent::Subscribed { id: doc_id, session_id }),
    {
        proof {
            if old(self).wf() {
                lemma_join_leave(old(self)@, doc_id, session_id);
            }
        }
        let opened = DocEvent::Open { user_id, user_name, id: doc_id, session_id };
        let announce = self.broadcast(doc_id, opened);
        let mut sessions: Vec<i64> = match watched_remove(&mut self.doc_streams, doc_id) {
            None => Vec::new(),
            Some(sessions) => sessions,
        };
        if !holds(&sessions, session_id) {
            sessions.push(session_id);
        }
        watched_insert(&mut self.doc_streams, doc_id, sessions);
        proof {
            assert(self@ =~= after_join(old(self)@, doc_id, session_id));
        }
        Subscription { announce, confirm: DocEvent::Subscribed { id: doc_id, session_id } }
    }

    /// Takes `session_id` out of the sessions of document `doc_id` and tells
    /// those who stay. A session that is not there is no fault. Where none
    /// stays, the document's set is dropped and `last_out` says so.
    pub fn unsubscribe(&mut self, doc_id: i32, session_id: i64, user_id: String) -> (out: Departure)
        ensures
            old(self).wf() ==> final(self).wf(),
            final(self)@ == after_leave(old(self)@, doc_id, session_id),
            out.notice.targets@ == watchers(final(self)@, doc_id),
            out.notice.event == (DocEvent::Close { user_id, id: doc_id, session_id }),
            out.last_out == is_last_out(old(self)@, doc_id, session_id),
    {
        proof {
            if old(self).wf() {
                lemma_join_leave(old(self)@, doc_id, session_id);
            }
        }
        let event = DocEvent::Close { user_id, id: doc_id, session_id };
        match watched_remove(&mut self.doc_streams, doc_id) {
            None => {
                proof {
                    assert(self@ =~= old(self)@);
                }
                Departure { notice: Broadcast { targets: Vec::new(), event }, last_out: false }
            },
            Some(sessions) => {
                let rest = others(&sessions, session_id);
                if rest.len() == 0 {
                    Departure { notice: Broadcast { targets: rest, event }, last_out: true }
                } else {
                    let targets = copy_sessions(&rest);
                    watched_insert(&mut self.doc_streams, doc_id, rest);
                    Departure { notice: Broadcast { targets, event }, last_out: false }
                }
            },
        }
    }

    /// Tells all sessions of document `doc_id` that it is deleted, and drops
    /// its set whatever it holds.
    pub fn remove_document(&mut self, doc_id: i32, user_id: String) -> (out: Broadcast)
        ensures
            old(self).wf() ==> final(self).wf(),
            final(self)@ == old(self)@.remove(doc_id),
            out.targets@ == watchers(old(self)@, doc_id),
            out.event == (DocEvent::Remove { user_id, id: doc_id }),
    {
        let event = DocEvent::Remove { user_id, id: doc_id };
        let targets: Vec<i64> = match watched_remove(&mut self.doc_streams, doc_id) {
            None => Vec::new(),
            Some(sessions) => sessions,
        };
        Broadcast { targets, event }
    }
}

} // verus!
