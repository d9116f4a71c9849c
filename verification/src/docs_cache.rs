//! The change-log cache: the entries of all open documents, keyed by
//! document id, with registration, writes, reconstruction and write-back.

use vstd::prelude::*;
use vstd::seq_lib::lemma_seq_contains_after_push;
use vstd::utf8::encode_utf8;
use dashmap::DashMap;
use crate::change::{edits_of, CacheError, Change, Edit};
use crate::clock::unix_now;
use crate::entry::{
    content_of, due, flushed, fresh_entry, needs_flush, rebuild, written, ChangeEntry,
    DocCacheEntry, EntryState, MAX_PENDING_BATCHES,
};

verus! {

/// `dashmap::DashMap`, the concurrent map, as a value that is carried along:
/// what one holds is said by a name of its own for each use.
#[verifier::external_type_specification]
#[verifier::external_body]
#[verifier::reject_recursive_types(K)]
#[verifier::reject_recursive_types(V)]
#[verifier::reject_recursive_types(S)]
pub struct ExDashMap<K, V, S>(DashMap<K, V, S>);

/// The entries that a `DashMap` of open documents holds, each by its view.
pub uninterp spec fn cached_docs(m: DashMap<i32, DocCacheEntry>) -> Map<i32, EntryState>;

/// The cache with no open document.
pub open spec fn no_docs() -> Map<i32, EntryState> {
    Map::empty()
}

/// `DashMap::new`: a map that holds nothing.
#[verifier::external_body]
fn docs_new() -> (m: DashMap<i32, DocCacheEntry>)
    ensures
        cached_docs(m) == no_docs(),
{
    DashMap::new()
}

/// `DashMap::contains_key`: whether the map holds an entry under `id`.
#[verifier::external_body]
fn docs_contains(m: &DashMap<i32, DocCacheEntry>, id: i32) -> (held: bool)
    ensures
        held == cached_docs(*m).dom().contains(id),
{
    m.contains_key(&id)
}

/// `DashMap::get`: a copy of the entry under `id`, if there is one.
#[verifier::external_body]
fn docs_get(m: &DashMap<i32, DocCacheEntry>, id: i32) -> (found: Option<DocCacheEntry>)
    ensures
        found is Some <==> cached_docs(*m).dom().contains(id),
        found matches Some(e) ==> e@ == cached_docs(*m)[id],
{
    m.get(&id).map(|item| item.value().duplicate())
}

/// `DashMap::insert`: afterwards the map holds `entry` under `id` and is
/// otherwise as before; the entry that `id` had, if any, is returned.
#[verifier::external_body]
fn docs_insert(
    m: &mut DashMap<i32, DocCacheEntry>,
    id: i32,
    entry: DocCacheEntry,
) -> (prev: Option<DocCacheEntry>)
    ensures
        cached_docs(*final(m)) == cached_docs(*old(m)).insert(id, entry@),
        prev is Some <==> cached_docs(*old(m)).dom().contains(id),
        prev matches Some(p) ==> p@ == cached_docs(*old(m))[id],
{
    m.insert(id, entry)
}

/// `DashMap::remove`: afterwards the map holds nothing under `id` and is
/// otherwise as before; the entry that `id` had, if any, is returned.
#[verifier::external_body]
fn docs_remove(m: &mut DashMap<i32, DocCacheEntry>, id: i32) -> (taken: Option<DocCacheEntry>)
    ensures
        cached_docs(*final(m)) == cached_docs(*old(m)).remove(id),
        taken is Some <==> cached_docs(*old(m)).dom().contains(id),
        taken matches Some(t) ==> t@ == cached_docs(*old(m))[id],
{
    m.remove(&id).map(|pair| pair.1)
}

/// `DashMap::iter`, keys only: every key of the map once, in no stated order.
#[verifier::external_body]
fn docs_keys(m: &DashMap<i32, DocCacheEntry>) -> (keys: Vec<i32>)
    ensures
        keys@.no_duplicates(),
        forall|id: i32| keys@.contains(id) <==> cached_docs(*m).dom().contains(id),
{
    m.iter().map(|item| *item.key()).collect()
}

/// The CRC-32 checksum of a byte string, as `crc32fast::hash` computes it.
pub uninterp spec fn crc32(bytes: Seq<u8>) -> u32;

/// `crc32fast::hash`: the CRC-32 checksum of `bytes`.
#[verifier::external_body]
fn crc32_hash(bytes: &[u8]) -> (sum: u32)
    ensures
        sum == crc32(bytes@),
{
    crc32fast::hash(bytes)
}

/// The checksum of a text: the CRC-32 of its UTF-8 bytes.
pub open spec fn text_checksum(text: Seq<char>) -> u32 {
    crc32(encode_utf8(text))
}

/// Whether a checksum that a client sent agrees with the one computed here.
pub fn checksum_agrees(computed: u32, claimed: u32) -> (same: bool)
    ensures
        same == (computed == claimed),
{
    computed == claimed
}

/// The cache of open documents.
pub struct DocsCache {
    doc_cache: DashMap<i32, DocCacheEntry>,
}

impl View for DocsCache {
    type V = Map<i32, EntryState>;

    closed spec fn view(&self) -> Map<i32, EntryState> {
        cached_docs(self.doc_cache)
    }
}

/// The cache after document `id` was opened at time `now`: an entry that is
/// there stays as it is.
pub open spec fn registered(docs: Map<i32, EntryState>, id: i32, now: u64) -> Map<i32, EntryState> {
    if docs.dom().contains(id) {
        docs
    } else {
        docs.insert(id, fresh_entry(now))
    }
}

/// The cache after a write to document `id`: a document that is not open
/// gets no entry.
pub open spec fn after_write(
    docs: Map<i32, EntryState>,
    id: i32,
    session: i64,
    edits: Seq<Edit>,
    now: u64,
) -> Map<i32, EntryState> {
    if docs.dom().contains(id) {
        docs.insert(id, written(docs[id], session, edits, now))
    } else {
        docs
    }
}

/// What reconstruction of document `id` on the stored text `base` gives.
pub open spec fn built(
    docs: Map<i32, EntryState>,
    id: i32,
    base: Seq<char>,
) -> Result<Seq<char>, CacheError> {
    if !docs.dom().contains(id) {
        Err(CacheError::NotFound)
    } else {
        match content_of(base, docs[id]) {
            Some(text) => Ok(text),
            None => Err(CacheError::InvalidEdit),
        }
    }
}

/// What the opening of document `id` returns once its entry stands: its
/// current text on the stored text `base`, and its version.
pub open spec fn opened(
    docs: Map<i32, EntryState>,
    id: i32,
    base: Seq<char>,
) -> Result<(Seq<char>, u64), CacheError> {
    match built(docs, id, base) {
        Ok(text) => Ok((text, docs[id].version)),
        Err(e) => Err(e),
    }
}

/// Whether `rslt` is the text and version `want`, or the same error.
pub open spec fn gives_opened(
    rslt: Result<(String, u64), CacheError>,
    want: Result<(Seq<char>, u64), CacheError>,
) -> bool {
    match want {
        Ok(pair) => rslt is Ok && rslt->Ok_0.0@ == pair.0 && rslt->Ok_0.1 == pair.1,
        Err(e) => rslt == Err::<(String, u64), CacheError>(e),
    }
}

/// Whether `rslt` is the text `want`, or the same error.
pub open spec fn gives_text(
    rslt: Result<String, CacheError>,
    want: Result<Seq<char>, CacheError>,
) -> bool {
    match want {
        Ok(text) => rslt is Ok && rslt->Ok_0@ == text,
        Err(e) => rslt == Err::<String, CacheError>(e),
    }
}

impl DocsCache {
    /// A cache with no open document.
    pub fn new() -> (cache: Self)
        ensures
            cache@ == no_docs(),
    {
        DocsCache { doc_cache: docs_new() }
    }

    /// Whether document `doc_id` is open.
    pub fn is_open(&self, doc_id: i32) -> (open: bool)
        ensures
            open == self@.dom().contains(doc_id),
    {
        docs_contains(&self.doc_cache, doc_id)
    }

    /// The document's current text: `base`, the text in storage, with the
    /// pending edits replayed on it.
    pub fn build_doc_changes(&self, id: i32, base: String) -> (rslt: Result<String, CacheError>)
        ensures
            gives_text(rslt, built(self@, id, base@)),
    {
        match docs_get(&self.doc_cache, id) {
            None => Err(CacheError::NotFound),
            Some(entry) => rebuild(base, &entry.changes),
        }
    }

    /// Opens document `doc_id` at time `now` unless it is open, and returns
    /// its current text and version. An entry that is there is not touched.
    pub fn register_doc_at(
        &mut self,
        doc_id: i32,
        base: String,
        now: u64,
    ) -> (rslt: Result<(String, u64), CacheError>)
        ensures
            final(self)@ == registered(old(self)@, doc_id, now),
            gives_opened(rslt, opened(final(self)@, doc_id, base@)),
    {
        if !docs_contains(&self.doc_cache, doc_id) {
            let entry = DocCacheEntry { changes: Vec::new(), last_update: now, change_id: 0 };
            proof {
                assert(entry@.log =~= fresh_entry(now).log);
            }
            docs_insert(&mut self.doc_cache, doc_id, entry);
        }
        match docs_get(&self.doc_cache, doc_id) {
            None => Err(CacheError::NotFound),
            Some(entry) => match rebuild(base, &entry.changes) {
                Ok(text) => Ok((text, entry.change_id)),
                Err(e) => Err(e),
            },
        }
    }

    /// Opens document `doc_id` now unless it is open, and returns its current
    /// text and version. Only where the document was not open does the clock
    /// enter: as the time of its new entry.
    pub fn register_doc(
        &mut self,
        doc_id: i32,
        base: String,
    ) -> (rslt: Result<(String, u64), CacheError>)
        ensures
            exists|now: u64| final(self)@ == registered(old(self)@, doc_id, now),
            gives_opened(rslt, opened(final(self)@, doc_id, base@)),
    {
        let now: u64 = unix_now();
        self.register_doc_at(doc_id, base, now)
    }

    /// Records a write of `changes` by `session` to document `doc_id` at time
    /// `now`: the edits join the last batch where it is the same session's,
    /// the version goes up by one. A document that is not open gets no entry.
    /// `change_id`, the version the writer had seen, decides nothing. Returns
    /// whether the document was open.
    #[allow(unused_variables)]
    pub fn update_doc_at(
        &mut self,
        session: i64,
        doc_id: i32,
        changes: Vec<Change>,
        change_id: u64,
        now: u64,
    ) -> (open: bool)
        requires
            old(self)@.dom().contains(doc_id) ==> old(self)@[doc_id].version < u64::MAX,
        ensures
            open == old(self)@.dom().contains(doc_id),
            final(self)@ == after_write(old(self)@, doc_id, session, edits_of(changes@), now),
    {
        match docs_remove(&mut self.doc_cache, doc_id) {
            None => {
                proof {
                    assert(self@ =~= old(self)@);
                }
                false
            },
            Some(entry) => {
                let mut entry = entry;
                let mut changes = changes;
                let ghost before = entry@;
                let ghost edits = edits_of(changes@);
                let n: usize = entry.changes.len();
                if n > 0 && entry.changes[n - 1].session == session {
                    let mut last = entry.changes.pop().unwrap();
                    let ghost last_before = last@;
                    last.changes.append(&mut changes);
                    proof {
                        assert(last@.edits =~= last_before.edits + edits);
                    }
                    entry.changes.push(last);
                } else {
                    entry.changes.push(ChangeEntry { changes, session });
                }
                entry.last_update = now;
                entry.change_id = entry.change_id + 1;
                proof {
                    assert(entry@.log =~= written(before, session, edits, now).log);
                }
                docs_insert(&mut self.doc_cache, doc_id, entry);
                true
            },
        }
    }

    /// Records a write of `changes` by `session` to document `doc_id` now.
    /// Whatever the clock says, log and version are those of
    /// [`DocsCache::update_doc_at`].
    pub fn update_doc(
        &mut self,
        session: i64,
        doc_id: i32,
        changes: Vec<Change>,
        change_id: u64,
    ) -> (open: bool)
        requires
            old(self)@.dom().contains(doc_id) ==> old(self)@[doc_id].version < u64::MAX,
        ensures
            open == old(self)@.dom().contains(doc_id),
            exists|now: u64| final(self)@
                == after_write(old(self)@, doc_id, session, edits_of(changes@), now),
    {
        let now: u64 = unix_now();
        self.update_doc_at(session, doc_id, changes, change_id, now)
    }

    /// Ends a write-back of document `id`. `stored` is what storage answered
    /// to the text that [`DocsCache::build_doc_changes`] gave. Only after
    /// success is the log cleared; the version stays. A failure, or a document
    /// that is not open, leaves the cache as it was.
    pub fn apply_doc_changes(
        &mut self,
        id: i32,
        stored: Result<(), CacheError>,
    ) -> (rslt: Result<(), CacheError>)
        ensures
            rslt == flush_outcome(old(self)@, id, stored),
            final(self)@ == (if rslt is Ok {
                old(self)@.insert(id, flushed(old(self)@[id]))
            } else {
                old(self)@
            }),
    {
        match stored {
            Err(e) => Err(e),
            Ok(_) => match docs_remove(&mut self.doc_cache, id) {
                None => {
                    proof {
                        assert(self@ =~= old(self)@);
                    }
                    Err(CacheError::NotFound)
                },
                Some(entry) => {
                    let mut entry = entry;
                    entry.changes.clear();
                    proof {
                        assert(entry@.log =~= flushed(old(self)@[id]).log);
                    }
                    docs_insert(&mut self.doc_cache, id, entry);
                    Ok(())
                },
            },
        }
    }

    /// Ends the write-back that precedes the closing of document `doc_id`, and
    /// drops its entry where the write-back succeeded.
    pub fn remove_doc(
        &mut self,
        doc_id: i32,
        stored: Result<(), CacheError>,
    ) -> (rslt: Result<(), CacheError>)
        ensures
            rslt == flush_outcome(old(self)@, doc_id, stored),
            final(self)@ == (if rslt is Ok {
                old(self)@.remove(doc_id)
            } else {
                old(self)@
            }),
    {
        match self.apply_doc_changes(doc_id, stored) {
            Err(e) => Err(e),
            Ok(_) => {
                docs_remove(&mut self.doc_cache, doc_id);
                proof {
                    assert(self@ =~= old(self)@.remove(doc_id));
                }
                Ok(())
            },
        }
    }

    /// Drops the entry of document `doc_id`, pending edits included.
    pub fn clear_doc_cache(&mut self, doc_id: i32)
        ensures
            final(self)@ == old(self)@.remove(doc_id),
    {
        docs_remove(&mut self.doc_cache, doc_id);
    }

    /// Compares `crc` with the checksum of the document's current text, built
    /// on the stored text `base`.
    pub fn crc_check(&self, doc_id: i32, base: String, crc: u32) -> (rslt: Result<bool, CacheError>)
        ensures
            rslt == match built(self@, doc_id, base@) {
                Ok(text) => Ok::<bool, CacheError>(text_checksum(text) == crc),
                Err(e) => Err::<bool, CacheError>(e),
            },
    {
        match self.build_doc_changes(doc_id, base) {
            Ok(content) => {
                let sum: u32 = crc32_hash(content.as_str().as_bytes());
                Ok(checksum_agrees(sum, crc))
            },
            Err(e) => Err(e),
        }
    }

    /// The version of document `doc_id`, if it is open.
    pub fn change_id(&self, doc_id: i32) -> (version: Option<u64>)
        ensures
            version == (if self@.dom().contains(doc_id) {
                Some(self@[doc_id].version)
            } else {
                None
            }),
    {
        match docs_get(&self.doc_cache, doc_id) {
            None => None,
            Some(entry) => Some(entry.change_id),
        }
    }

    /// The number of pending batches of document `doc_id`, if it is open.
    pub fn pending_batches(&self, doc_id: i32) -> (count: Option<usize>)
        ensures
            count is Some == self@.dom().contains(doc_id),
            count matches Some(n) ==> n == self@[doc_id].log.len(),
    {
        match docs_get(&self.doc_cache, doc_id) {
            None => None,
            Some(entry) => Some(entry.changes.len()),
        }
    }

    /// The sweep at time `now`: the documents to write back, each once. These
    /// are the open documents with pending edits that are stale or past the
    /// batch limit. Each entry is taken out, looked at and put back, so that
    /// none is copied: the cache is left as it was.
    pub fn interval_update_at(&mut self, now: u64) -> (ids: Vec<i32>)
        ensures
            final(self)@ == old(self)@,
            ids@.no_duplicates(),
            swept(old(self)@, ids@, now),
    {
        let keys = docs_keys(&self.doc_cache);
        let mut ids: Vec<i32> = Vec::new();
        let mut i: usize = 0;
        while i < keys.len()
            invariant
                i <= keys.len(),
                self@ == old(self)@,
                keys@.no_duplicates(),
                forall|id: i32| keys@.contains(id) <==> old(self)@.dom().contains(id),
                ids@.no_duplicates(),
                forall|id: i32| ids@.contains(id)
                    <==> keys@.take(i as int).contains(id) && due(old(self)@[id], now),
            decreases keys.len() - i,
        {
            let id: i32 = keys[i];
            let ghost before = ids@;
            proof {
                assert(keys@.contains(id));
                assert(keys@.take(i + 1) =~= keys@.take(i as int).push(id));
                assert forall|x: i32| keys@.take(i + 1).contains(x)
                    <==> keys@.take(i as int).contains(x) || x == id by {
                    lemma_seq_contains_after_push(keys@.take(i as int), id, x);
                }
                if keys@.take(i as int).contains(id) {
                    let j = choose|j: int| 0 <= j < i && keys@.take(i as int)[j] == id;
                    assert(keys@[j] == keys@[i as int]);
                }
            }
            match docs_remove(&mut self.doc_cache, id) {
                None => {},
                Some(entry) => {
                    if needs_flush(entry.changes.len(), entry.last_update, now) {
                        ids.push(id);
                    }
                    docs_insert(&mut self.doc_cache, id, entry);
                },
            }
            proof {
                assert(self@ =~= old(self)@);
                if ids@.len() > before.len() {
                    assert(!before.contains(id));
                    assert forall|a: int, b: int| 0 <= a < ids@.len() && 0 <= b < ids@.len()
                        && a != b implies ids@[a] != ids@[b] by {
                        if a < before.len() && ids@[a] == id {
                            assert(before[a] == id);
                        }
                        if b < before.len() && ids@[b] == id {
                            assert(before[b] == id);
                        }
                    }
                }
                assert forall|x: i32| ids@.contains(x)
                    <==> keys@.take(i + 1).contains(x) && due(old(self)@[x], now) by {
                    if ids@.len() > before.len() {
                        lemma_seq_contains_after_push(before, id, x);
                    }
                }
            }
            i = i + 1;
        }
        proof {
            assert(keys@.take(i as int) =~= keys@);
        }
        ids
    }

    /// The sweep now. Whatever the clock says, the documents returned are
    /// those of [`DocsCache::interval_update_at`] for some time: each has
    /// pending edits, and every document past the batch limit is among them.
    pub fn interval_update(&mut self) -> (ids: Vec<i32>)
        ensures
            final(self)@ == old(self)@,
            ids@.no_duplicates(),
            exists|now: u64| swept(old(self)@, ids@, now),
            forall|id: i32| #[trigger]
                ids@.contains(id) ==> old(self)@.dom().contains(id) && old(self)@[id].log.len() > 0,
            forall|id: i32|
                old(self)@.dom().contains(id) && old(self)@[id].log.len() > MAX_PENDING_BATCHES
                    ==> #[trigger] ids@.contains(id),
    {
        let now: u64 = unix_now();
        self.interval_update_at(now)
    }
}

/// Whether `ids` names the documents that the sweep at time `now` writes
/// back: the open ones that are due, and no other.
pub open spec fn swept(docs: Map<i32, EntryState>, ids: Seq<i32>, now: u64) -> bool {
    forall|id: i32| ids.contains(id) <==> docs.dom().contains(id) && due(docs[id], now)
}

/// What ends a write-back of document `id` to which storage answered
/// `stored`: the storage's error, else `NotFound` for a document that is not
/// open, else success.
pub open spec fn flush_outcome(
    docs: Map<i32, EntryState>,
    id: i32,
    stored: Result<(), CacheError>,
) -> Result<(), CacheError> {
    match stored {
        Err(e) => Err(e),
        Ok(_) => if docs.dom().contains(id) {
            Ok(())
        } else {
            Err(CacheError::NotFound)
        },
    }
}

/// Opening a document that is open changes nothing: its pending edits and
/// its version stay, so opening twice is opening once.
pub proof fn lemma_register_idempotent(docs: Map<i32, EntryState>, id: i32, t1: u64, t2: u64)
    ensures
        docs.dom().contains(id) ==> registered(docs, id, t1) == docs,
        registered(registered(docs, id, t1), id, t2) == registered(docs, id, t1),
        registered(docs, id, t1).dom().contains(id),
{
}

/// A write touches the document written to and no other, and never opens one.
pub proof fn lemma_write_is_local(
    docs: Map<i32, EntryState>,
    id: i32,
    session: i64,
    edits: Seq<Edit>,
    now: u64,
)
    ensures
        after_write(docs, id, session, edits, now).dom() == docs.dom(),
        forall|other: i32| other != id && docs.dom().contains(other)
            ==> after_write(docs, id, session, edits, now)[other] == docs[other],
{
    assert(after_write(docs, id, session, edits, now).dom() =~= docs.dom());
}

/// A document that was dropped from the cache and is opened again starts
/// anew: nothing pending, version zero, and its text is the stored text.
pub proof fn lemma_reopened_is_fresh(docs: Map<i32, EntryState>, id: i32, now: u64, base: Seq<char>)
    ensures
        registered(docs.remove(id), id, now)[id] == fresh_entry(now),
        built(registered(docs.remove(id), id, now), id, base) == Ok::<Seq<char>, CacheError>(base),
{
}

} // verus!
