//! The document service: what each operation on a document does to the
//! cache and to the registry, and what it has delivered to whom.

use vstd::prelude::*;
use crate::change::{copy_changes, edits_of, CacheError, Change};
use crate::docs_cache::{
    after_write, built, gives_opened, no_docs, opened, registered, text_checksum, DocsCache,
};
use crate::registry::{
    after_join, after_leave, is_last_out, nobody, watchers, Broadcast, Departure, DocEvent,
    SessionRegistry, Subscription,
};

verus! {

/// The change-log cache and the session registry of one server.
pub struct DocsService {
    /// Which sessions watch which document.
    pub doc_streams: SessionRegistry,
    /// The pending edits of the open documents.
    pub doc_cache: DocsCache,
}

impl DocsService {
    /// Whether the registry is well formed.
    pub open spec fn wf(&self) -> bool {
        self.doc_streams.wf()
    }

    /// A service with no open document and no session.
    pub fn new() -> (service: Self)
        ensures
            service.wf(),
            service.doc_streams@ == nobody(),
            service.doc_cache@ == no_docs(),
    {
        DocsService { doc_streams: SessionRegistry::new(), doc_cache: DocsCache::new() }
    }

    /// A user subscribes to document `doc_id` under the fresh session id
    /// `session_id`: the sessions that watch it are told, the new one joins
    /// them and gets its confirmation. The cache is not touched.
    pub fn subscribe_doc(
        &mut self,
        doc_id: i32,
        session_id: i64,
        user_id: String,
        user_name: String,
    ) -> (out: Subscription)
        ensures
            old(self).wf() ==> final(self).wf(),
            final(self).doc_cache@ == old(self).doc_cache@,
            final(self).doc_streams@ == after_join(old(self).doc_streams@, doc_id, session_id),
            out.announce.targets@ == watchers(old(self).doc_streams@, doc_id),
            out.announce.event == (DocEvent::Open { user_id, user_name, id: doc_id, session_id }),
            out.confirm == (DocEvent::Subscribed { id: doc_id, session_id }),
    {
        self.doc_streams.subscribe(doc_id, session_id, user_id, user_name)
    }

    /// Opens document `doc_id` at time `now`: its cache entry is made unless
    /// it is there, and its current text, built on the stored text `base`,
    /// is returned with its version. The registry is not touched.
    pub fn open_doc_at(
        &mut self,
        doc_id: i32,
        base: String,
        now: u64,
    ) -> (rslt: Result<(String, u64), CacheError>)
        ensures
            final(self).doc_streams@ == old(self).doc_streams@,
            final(self).doc_cache@ == registered(old(self).doc_cache@, doc_id, now),
            gives_opened(rslt, opened(final(self).doc_cache@, doc_id, base@)),
    {
        self.doc_cache.register_doc_at(doc_id, base, now)
    }

    /// Opens document `doc_id` now.
    pub fn open_doc(
        &mut self,
        doc_id: i32,
        base: String,
    ) -> (rslt: Result<(String, u64), CacheError>)
        ensures
            final(self).doc_streams@ == old(self).doc_streams@,
            exists|now: u64| final(self).doc_cache@ == registered(old(self).doc_cache@, doc_id, now),
            gives_opened(rslt, opened(final(self).doc_cache@, doc_id, base@)),
    {
        self.doc_cache.register_doc(doc_id, base)
    }

    /// A write of `changes` by `session_id` to document `doc_id` at time
    /// `now`: the cache records it where the document is open, and every
    /// session that watches the document is sent the changes as they came,
    /// whether or not the cache had an entry.
    pub fn write_doc_at(
        &mut self,
        doc_id: i32,
        session_id: i64,
        user_id: String,
        changes: Vec<Change>,
        change_id: u64,
        now: u64,
    ) -> (out: Broadcast)
        requires
            old(self).doc_cache@.dom().contains(doc_id)
                ==> old(self).doc_cache@[doc_id].version < u64::MAX,
        ensures
            final(self).doc_streams@ == old(self).doc_streams@,
            final(self).doc_cache@
                == after_write(old(self).doc_cache@, doc_id, session_id, edits_of(changes@), now),
            out.targets@ == watchers(old(self).doc_streams@, doc_id),
            out.event == (DocEvent::Write { user_id, id: doc_id, session_id, changes }),
    {
        let pending = copy_changes(&changes);
        self.doc_cache.update_doc_at(session_id, doc_id, pending, change_id, now);
        self.doc_streams.broadcast(doc_id, DocEvent::Write { user_id, id: doc_id, session_id, changes })
    }

    /// A write of `changes` by `session_id` to document `doc_id` now.
    pub fn write_doc(
        &mut self,
        doc_id: i32,
        session_id: i64,
        user_id: String,
        changes: Vec<Change>,
        change_id: u64,
    ) -> (out: Broadcast)
        requires
            old(self).doc_cache@.dom().contains(doc_id)
                ==> old(self).doc_cache@[doc_id].version < u64::MAX,
        ensures
            final(self).doc_streams@ == old(self).doc_streams@,
            exists|now: u64| final(self).doc_cache@
                == after_write(old(self).doc_cache@, doc_id, session_id, edits_of(changes@), now),
            out.targets@ == watchers(old(self).doc_streams@, doc_id),
            out.event == (DocEvent::Write { user_id, id: doc_id, session_id, changes }),
    {
        let pending = copy_changes(&changes);
        self.doc_cache.update_doc(session_id, doc_id, pending, change_id);
        self.doc_streams.broadcast(doc_id, DocEvent::Write { user_id, id: doc_id, session_id, changes })
    }

    /// Session `session_id` leaves document `doc_id`, by its own call or
    /// because its stream was found closed: those who stay are told. Where
    /// it was the last, `last_out` asks for the document to be written back
    /// and dropped from the cache, which is not touched here.
    pub fn close_doc(&mut self, doc_id: i32, session_id: i64, user_id: String) -> (out: Departure)
        ensures
            old(self).wf() ==> final(self).wf(),
            final(self).doc_cache@ == old(self).doc_cache@,
            final(self).doc_streams@ == after_leave(old(self).doc_streams@, doc_id, session_id),
            out.notice.targets@ == watchers(final(self).doc_streams@, doc_id),
            out.notice.event == (DocEvent::Close { user_id, id: doc_id, session_id }),
            out.last_out == is_last_out(old(self).doc_streams@, doc_id, session_id),
    {
        self.doc_streams.unsubscribe(doc_id, session_id, user_id)
    }

    /// Document `doc_id` is deleted: all its sessions are told, and its set
    /// of sessions and its cache entry are dropped with nothing written back.
    pub fn remove_doc(&mut self, doc_id: i32, user_id: String) -> (out: Broadcast)
        ensures
            old(self).wf() ==> final(self).wf(),
            final(self).doc_streams@ == old(self).doc_streams@.remove(doc_id),
            final(self).doc_cache@ == old(self).doc_cache@.remove(doc_id),
            out.targets@ == watchers(old(self).doc_streams@, doc_id),
            out.event == (DocEvent::Remove { user_id, id: doc_id }),
    {
        let out = self.doc_streams.remove_document(doc_id, user_id);
        self.doc_cache.clear_doc_cache(doc_id);
        out
    }

    /// Compares `crc` with the checksum of the current text of document
    /// `doc_id`, built on the stored text `base`.
    pub fn crc_check(&self, doc_id: i32, base: String, crc: u32) -> (rslt: Result<bool, CacheError>)
        ensures
            rslt == match built(self.doc_cache@, doc_id, base@) {
                Ok(text) => Ok::<bool, CacheError>(text_checksum(text) == crc),
                Err(e) => Err::<bool, CacheError>(e),
            },
    {
        self.doc_cache.crc_check(doc_id, base, crc)
    }
}

} // verus!
