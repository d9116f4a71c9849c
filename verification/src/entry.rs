//! What the cache holds of one open document: the edits that storage has not
//! seen yet, a version counter and the time of the last write.

use vstd::prelude::*;
use crate::change::{
    copy_changes, edits_of, lemma_replayed_concat, lemma_replayed_none_extends, replay, replayed,
    CacheError, Change, Edit,
};

verus! {

/// Age in seconds past which a document with pending edits is written back.
pub const STALE_AFTER_SECS: u64 = 30;

/// Number of pending batches past which a document is written back at once.
pub const MAX_PENDING_BATCHES: usize = 100;

/// The edits of one or more consecutive writes of one session.
#[derive(Debug, Clone, PartialEq, Eq)]
pub struct ChangeEntry {
    pub changes: Vec<Change>,
    pub session: i64,
}

/// The mathematical value of a [`ChangeEntry`].
pub struct Batch {
    pub session: i64,
    pub edits: Seq<Edit>,
}

impl View for ChangeEntry {
    type V = Batch;

    open spec fn view(&self) -> Batch {
        Batch { session: self.session, edits: edits_of(self.changes@) }
    }
}

/// The views of a sequence of batches, in order.
pub open spec fn batches_of(log: Seq<ChangeEntry>) -> Seq<Batch> {
    log.map_values(|b: ChangeEntry| b@)
}

/// What the cache holds of one open document.
#[derive(Debug, Clone, PartialEq, Eq)]
pub struct DocCacheEntry {
    /// Pending batches in the order in which the writes arrived.
    pub changes: Vec<ChangeEntry>,
    /// Time of the last write, in seconds since the Unix epoch.
    pub last_update: u64,
    /// Number of writes accepted since the document was opened.
    pub change_id: u64,
}

/// The mathematical value of a [`DocCacheEntry`].
pub struct EntryState {
    pub log: Seq<Batch>,
    pub last_update: u64,
    pub version: u64,
}

impl View for DocCacheEntry {
    type V = EntryState;

    open spec fn view(&self) -> EntryState {
        EntryState {
            log: batches_of(self.changes@),
            last_update: self.last_update,
            version: self.change_id,
        }
    }
}

impl DocCacheEntry {
    /// A copy of the entry, with the same view.
    pub fn duplicate(&self) -> (copy: DocCacheEntry)
        ensures
            copy@ == self@,
    {
        let mut changes: Vec<ChangeEntry> = Vec::new();
        let mut i: usize = 0;
        while i < self.changes.len()
            invariant
                i <= self.changes.len(),
                batches_of(changes@) == batches_of(self.changes@.take(i as int)),
            decreases self.changes.len() - i,
        {
            let batch = &self.changes[i];
            let ghost before = changes@;
            let copy = ChangeEntry { changes: copy_changes(&batch.changes), session: batch.session };
            proof {
                assert(copy@ == self.changes@[i as int]@);
            }
            changes.push(copy);
            proof {
                let prefix = self.changes@.take(i as int);
                assert(self.changes@.take(i + 1) =~= prefix.push(self.changes@[i as int]));
                assert(batches_of(prefix.push(self.changes@[i as int])) =~= batches_of(prefix).push(
                    self.changes@[i as int]@,
                ));
                assert(batches_of(before.push(copy)) =~= batches_of(before).push(copy@));
            }
            i = i + 1;
        }
        proof {
            assert(self.changes@.take(i as int) =~= self.changes@);
        }
        DocCacheEntry { changes, last_update: self.last_update, change_id: self.change_id }
    }
}

/// All edits of a log, batch after batch.
pub open spec fn flat_log(log: Seq<Batch>) -> Seq<Edit>
    decreases log.len(),
{
    if log.len() == 0 {
        Seq::<Edit>::empty()
    } else {
        flat_log(log.drop_last()) + log.last().edits
    }
}

/// The document's current text: the stored text `base` with every pending
/// edit replayed on it in arrival order. `None` where an insertion does not
/// fit.
pub open spec fn content_of(base: Seq<char>, e: EntryState) -> Option<Seq<char>> {
    replayed(base, flat_log(e.log))
}

/// The entry of a document that was just opened at time `now`.
pub open spec fn fresh_entry(now: u64) -> EntryState {
    EntryState { log: Seq::<Batch>::empty(), last_update: now, version: 0 }
}

/// The log after a write of `edits` by `session`: joined to the last batch
/// where that batch is the same session's, a batch of its own otherwise.
pub open spec fn log_after_write(log: Seq<Batch>, session: i64, edits: Seq<Edit>) -> Seq<Batch> {
    if log.len() > 0 && log.last().session == session {
        log.drop_last().push(Batch { session, edits: log.last().edits + edits })
    } else {
        log.push(Batch { session, edits })
    }
}

/// The entry after a write of `edits` by `session` at time `now`.
pub open spec fn written(e: EntryState, session: i64, edits: Seq<Edit>, now: u64) -> EntryState {
    EntryState {
        log: log_after_write(e.log, session, edits),
        last_update: now,
        version: (e.version + 1) as u64,
    }
}

/// The entry after its text was written back: nothing pending, version kept.
pub open spec fn flushed(e: EntryState) -> EntryState {
    EntryState { log: Seq::<Batch>::empty(), last_update: e.last_update, version: e.version }
}

/// Seconds from `last_update` to `now`; zero where the clock went back.
pub open spec fn age_at(last_update: u64, now: u64) -> int {
    if now >= last_update {
        now - last_update
    } else {
        0
    }
}

/// Whether the sweep at time `now` writes the entry back: it has pending
/// edits, and is stale or has grown past the batch limit.
pub open spec fn due(e: EntryState, now: u64) -> bool {
    e.log.len() > 0 && (age_at(e.last_update, now) > STALE_AFTER_SECS || e.log.len()
        > MAX_PENDING_BATCHES)
}

/// The sweep's decision for one entry.
pub fn needs_flush(pending: usize, last_update: u64, now: u64) -> (yes: bool)
    ensures
        yes == (pending > 0 && (age_at(last_update, now) > STALE_AFTER_SECS || pending
            > MAX_PENDING_BATCHES)),
{
    let age: u64 = if now >= last_update { now - last_update } else { 0 };
    pending > 0 && (age > STALE_AFTER_SECS || pending > MAX_PENDING_BATCHES)
}

/// Replays a whole log on `base`, batch after batch.
pub fn rebuild(base: String, log: &Vec<ChangeEntry>) -> (rslt: Result<String, CacheError>)
    ensures
        match replayed(base@, flat_log(batches_of(log@))) {
            Some(t) => rslt is Ok && rslt->Ok_0@ == t,
            None => rslt == Err::<String, CacheError>(CacheError::InvalidEdit),
        },
{
    let ghost batches = batches_of(log@);
    let mut cur = base;
    let mut i: usize = 0;
    proof {
        assert(batches.take(0) =~= Seq::<Batch>::empty());
    }
    while i < log.len()
        invariant
            i <= log.len(),
            batches == batches_of(log@),
            replayed(base@, flat_log(batches.take(i as int))) == Some(cur@),
        decreases log.len() - i,
    {
        proof {
            assert(batches.take(i + 1).drop_last() =~= batches.take(i as int));
            assert(batches.take(i + 1).last().edits == edits_of(log@[i as int].changes@));
            lemma_replayed_concat(base@, flat_log(batches.take(i as int)), batches[i as int].edits);
        }
        match replay(cur, &log[i].changes) {
            Ok(next) => {
                cur = next;
            },
            Err(e) => {
                proof {
                    lemma_flat_log_prefix(batches, i + 1);
                    let whole = flat_log(batches);
                    let part = flat_log(batches.take(i + 1));
                    assert(whole.take(part.len() as int) =~= part);
                    lemma_replayed_none_extends(base@, whole, part.len() as int);
                }
                return Err(e);
            },
        }
        i = i + 1;
    }
    proof {
        assert(batches.take(i as int) =~= batches);
    }
    Ok(cur)
}

/// The edits of the first `n` batches open the edits of the whole log.
pub proof fn lemma_flat_log_prefix(log: Seq<Batch>, n: int)
    requires
        0 <= n <= log.len(),
    ensures
        flat_log(log.take(n)).len() <= flat_log(log).len(),
        flat_log(log).take(flat_log(log.take(n)).len() as int) == flat_log(log.take(n)),
    decreases log.len() - n,
{
    if n == log.len() {
        assert(log.take(n) =~= log);
        assert(flat_log(log).take(flat_log(log).len() as int) =~= flat_log(log));
    } else {
        lemma_flat_log_prefix(log, n + 1);
        assert(log.take(n + 1).drop_last() =~= log.take(n));
        let longer = flat_log(log.take(n + 1));
        let shorter = flat_log(log.take(n));
        assert(longer == shorter + log[n].edits);
        assert(flat_log(log).take(shorter.len() as int) =~= longer.take(shorter.len() as int));
        assert(longer.take(shorter.len() as int) =~= shorter);
    }
}

/// However a write is joined to the log, the log's edits afterwards are
/// those before it followed by the write's: coalescing changes no text.
pub proof fn lemma_write_appends_edits(log: Seq<Batch>, session: i64, edits: Seq<Edit>)
    ensures
        flat_log(log_after_write(log, session, edits)) == flat_log(log) + edits,
{
    let after = log_after_write(log, session, edits);
    if log.len() > 0 && log.last().session == session {
        assert(after.drop_last() =~= log.drop_last());
        assert(after.last().edits == log.last().edits + edits);
        assert(flat_log(log.drop_last()) + (log.last().edits + edits) =~= flat_log(log) + edits);
    } else {
        assert(after.drop_last() =~= log);
    }
}

/// Two writes in a row by one session raise the version by two, one for each
/// call, and share one batch: the log is as long after the second as after
/// the first, and a log that was empty holds a single batch with the edits
/// of both.
pub proof fn lemma_consecutive_writes_coalesce(
    e: EntryState,
    session: i64,
    first: Seq<Edit>,
    second: Seq<Edit>,
    t1: u64,
    t2: u64,
)
    requires
        e.version + 2 <= u64::MAX,
    ensures
        ({
            let mid = written(e, session, first, t1);
            let end = written(mid, session, second, t2);
            &&& mid.version == e.version + 1
            &&& end.version == e.version + 2
            &&& end.log.len() == mid.log.len()
            &&& end.log.drop_last() == mid.log.drop_last()
            &&& end.log.last().session == session
            &&& end.log.last().edits == mid.log.last().edits + second
            &&& e.log.len() == 0 ==> end.log == seq![Batch { session, edits: first + second }]
            &&& flat_log(end.log) == flat_log(e.log) + first + second
        }),
{
    let mid = written(e, session, first, t1);
    let end = written(mid, session, second, t2);
    assert(mid.log.len() > 0 && mid.log.last().session == session);
    assert(end.log.drop_last() =~= mid.log.drop_last());
    if e.log.len() == 0 {
        assert(mid.log =~= seq![Batch { session, edits: first }]);
        assert(end.log =~= seq![Batch { session, edits: first + second }]);
    }
    lemma_write_appends_edits(e.log, session, first);
    lemma_write_appends_edits(mid.log, session, second);
}

/// A write by another session than the last opens a batch of its own.
pub proof fn lemma_other_session_opens_batch(log: Seq<Batch>, session: i64, edits: Seq<Edit>)
    requires
        log.len() == 0 || log.last().session != session,
    ensures
        log_after_write(log, session, edits) == log.push(Batch { session, edits }),
{
}

/// The sweep's rule: an entry past the batch limit is due whatever its age;
/// a stale entry is due as soon as anything is pending; an entry within the
/// limit that is not stale is not due, nor is one with nothing pending.
pub proof fn lemma_sweep_rule(e: EntryState, now: u64)
    ensures
        e.log.len() > MAX_PENDING_BATCHES ==> due(e, now),
        e.log.len() > 0 && age_at(e.last_update, now) > STALE_AFTER_SECS ==> due(e, now),
        e.log.len() <= MAX_PENDING_BATCHES && age_at(e.last_update, now) <= STALE_AFTER_SECS
            ==> !due(e, now),
        e.log.len() == 0 ==> !due(e, now),
{
}

/// A write-back clears the log and keeps the version, and what is then
/// reconstructed is the stored text itself.
pub proof fn lemma_flushed_is_clean(e: EntryState, base: Seq<char>)
    ensures
        flushed(e).version == e.version,
        flushed(e).log.len() == 0,
        content_of(base, flushed(e)) == Some(base),
        content_of(base, fresh_entry(e.last_update)) == Some(base),
{
}

/// A write goes on top of the text that was there: the current text after it
/// is the text before it with the write's edits replayed on it, whether or
/// not the write was joined to an earlier batch. A text that could not be
/// built before cannot be built after.
pub proof fn lemma_write_extends_content(
    base: Seq<char>,
    e: EntryState,
    session: i64,
    edits: Seq<Edit>,
    now: u64,
)
    ensures
        content_of(base, written(e, session, edits, now)) == match content_of(base, e) {
            Some(text) => replayed(text, edits),
            None => None,
        },
{
    lemma_write_appends_edits(e.log, session, edits);
    lemma_replayed_concat(base, flat_log(e.log), edits);
}

/// Whether no two neighbouring batches of `log` are of one session.
pub open spec fn coalesced(log: Seq<Batch>) -> bool {
    forall|i: int| 0 < i < log.len() ==> (#[trigger] log[i]).session != log[i - 1].session
}

/// Writes keep the log coalesced: from an empty log on, neighbouring batches
/// are never of one session, whatever is written and whatever is cleared.
pub proof fn lemma_write_keeps_coalesced(e: EntryState, session: i64, edits: Seq<Edit>, now: u64)
    requires
        coalesced(e.log),
    ensures
        coalesced(written(e, session, edits, now).log),
        coalesced(flushed(e).log),
        coalesced(fresh_entry(now).log),
{
    let after = written(e, session, edits, now).log;
    assert forall|i: int| 0 < i < after.len() implies (#[trigger] after[i]).session
        != after[i - 1].session by {
        if i < after.len() - 1 {
            assert(after[i] == e.log[i]);
        }
    }
}

} // verus!
