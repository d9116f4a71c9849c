//! Edits to a document's text and their replay.

use vstd::prelude::*;
use vstd::string::*;
use crate::utils::{insert_at, with_inserted, without_range, RemoveRange};

verus! {

/// Insertion of `content` before the character at offset `position`.
#[derive(Debug, Clone, PartialEq, Eq)]
pub struct DocInsert {
    pub position: i32,
    pub content: String,
}

/// Removal of the `size` characters that start at offset `position`.
#[derive(Debug, Clone, PartialEq, Eq)]
pub struct DocRemove {
    pub position: i32,
    pub size: i32,
}

/// Substitution of the whole text by `content`.
#[derive(Debug, Clone, PartialEq, Eq)]
pub struct DocReplace {
    pub content: String,
}

/// One atomic mutation of a document's text.
#[derive(Debug, Clone, PartialEq, Eq)]
pub enum Change {
    Insert(DocInsert),
    Remove(DocRemove),
    Replace(DocReplace),
}

/// The mathematical value of a [`Change`].
pub enum Edit {
    Insert { position: int, text: Seq<char> },
    Remove { position: int, size: int },
    Replace { content: Seq<char> },
}

impl View for Change {
    type V = Edit;

    open spec fn view(&self) -> Edit {
        match *self {
            Change::Insert(ins) => Edit::Insert { position: ins.position as int, text: ins.content@ },
            Change::Remove(rem) => Edit::Remove { position: rem.position as int, size: rem.size as int },
            Change::Replace(rep) => Edit::Replace { content: rep.content@ },
        }
    }
}

/// The views of a sequence of changes, in order.
pub open spec fn edits_of(changes: Seq<Change>) -> Seq<Edit> {
    changes.map_values(|c: Change| c@)
}

/// Why a document's text could not be produced or written back.
#[derive(Debug, Clone, Copy, PartialEq, Eq, Structural)]
pub enum CacheError {
    /// The document has no cache entry.
    NotFound,
    /// An insertion lies outside the text it is applied to.
    InvalidEdit,
    /// The storage behind the cache failed.
    Upstream,
}

impl CacheError {
    /// A short description for diagnostics.
    pub fn message(&self) -> (text: &'static str)
        ensures
            text@ == match *self {
                CacheError::NotFound => "Document not found"@,
                CacheError::InvalidEdit => "Invalid insert position"@,
                CacheError::Upstream => "Storage failure"@,
            },
    {
        match self {
            CacheError::NotFound => "Document not found",
            CacheError::InvalidEdit => "Invalid insert position",
            CacheError::Upstream => "Storage failure",
        }
    }
}

/// Whether `e` can be applied to `text`: an insertion must lie within it.
pub open spec fn edit_fits(text: Seq<char>, e: Edit) -> bool {
    match e {
        Edit::Insert { position, text: _ } => 0 <= position <= text.len(),
        _ => true,
    }
}

/// `text` after `e`, where `e` fits.
pub open spec fn edited(text: Seq<char>, e: Edit) -> Seq<char> {
    match e {
        Edit::Insert { position, text: piece } => with_inserted(text, position, piece),
        Edit::Remove { position, size } => without_range(text, position, position + size),
        Edit::Replace { content } => content,
    }
}

/// `text` after the edits of `log`, first to last; `None` as soon as one does
/// not fit the text it meets.
pub open spec fn replayed(text: Seq<char>, log: Seq<Edit>) -> Option<Seq<char>>
    decreases log.len(),
{
    if log.len() == 0 {
        Some(text)
    } else {
        match replayed(text, log.drop_last()) {
            Some(t) => if edit_fits(t, log.last()) {
                Some(edited(t, log.last()))
            } else {
                None
            },
            None => None,
        }
    }
}

/// A failed replay stays failed however the log goes on.
pub proof fn lemma_replayed_none_extends(text: Seq<char>, log: Seq<Edit>, n: int)
    requires
        0 <= n <= log.len(),
        replayed(text, log.take(n)) is None,
    ensures
        replayed(text, log) is None,
    decreases log.len() - n,
{
    if n < log.len() {
        assert(log.take(n + 1).drop_last() =~= log.take(n));
        lemma_replayed_none_extends(text, log, n + 1);
    } else {
        assert(log.take(n) =~= log);
    }
}

/// Replaying `a + b` is replaying `a` and then `b` on what it gave.
pub proof fn lemma_replayed_concat(text: Seq<char>, a: Seq<Edit>, b: Seq<Edit>)
    ensures
        replayed(text, a + b) == match replayed(text, a) {
            Some(t) => replayed(t, b),
            None => None,
        },
    decreases b.len(),
{
    if b.len() == 0 {
        assert(a + b =~= a);
    } else {
        assert((a + b).drop_last() =~= a + b.drop_last());
        assert((a + b).last() == b.last());
        lemma_replayed_concat(text, a, b.drop_last());
    }
}

impl Change {
    /// A copy of the change, equal to it.
    pub fn duplicate(&self) -> (copy: Change)
        ensures
            copy == *self,
    {
        match self {
            Change::Insert(ins) => Change::Insert(
                DocInsert { position: ins.position, content: ins.content.clone() },
            ),
            Change::Remove(rem) => Change::Remove(DocRemove { position: rem.position, size: rem.size }),
            Change::Replace(rep) => Change::Replace(DocReplace { content: rep.content.clone() }),
        }
    }

    /// Applies the change to `text`. An insertion outside the text is refused;
    /// a removal is clamped to the text and never fails.
    pub fn apply(&self, text: String) -> (rslt: Result<String, CacheError>)
        ensures
            edit_fits(text@, self@) ==> rslt is Ok && rslt->Ok_0@ == edited(text@, self@),
            !edit_fits(text@, self@) ==> rslt == Err::<String, CacheError>(CacheError::InvalidEdit),
    {
        match self {
            Change::Insert(ins) => {
                let len: usize = text.as_str().unicode_len();
                if ins.position < 0 || ins.position as usize > len {
                    return Err(CacheError::InvalidEdit);
                }
                Ok(insert_at(&text, ins.position as usize, ins.content.as_str()))
            },
            Change::Remove(rem) => {
                let first: i64 = rem.position as i64;
                let last: i64 = rem.position as i64 + rem.size as i64;
                let start: usize = if first < 0 { 0 } else { first as usize };
                let stop: usize = if last < 0 { 0 } else { last as usize };
                let mut text = text;
                Ok(text.to_remove_range(start, stop))
            },
            Change::Replace(rep) => Ok(rep.content.clone()),
        }
    }
}

/// A copy of `changes`, equal to it edit by edit.
pub fn copy_changes(changes: &Vec<Change>) -> (copy: Vec<Change>)
    ensures
        copy@ == changes@,
{
    let mut copy: Vec<Change> = Vec::new();
    let mut i: usize = 0;
    while i < changes.len()
        invariant
            i <= changes.len(),
            copy@ == changes@.take(i as int),
        decreases changes.len() - i,
    {
        copy.push(changes[i].duplicate());
        proof {
            assert(copy@ =~= changes@.take(i + 1));
        }
        i = i + 1;
    }
    proof {
        assert(changes@.take(i as int) =~= changes@);
    }
    copy
}

/// Applies `changes` to `text`, first to last, and stops at the first that
/// does not fit.
pub fn replay(text: String, changes: &Vec<Change>) -> (rslt: Result<String, CacheError>)
    ensures
        match replayed(text@, edits_of(changes@)) {
            Some(t) => rslt is Ok && rslt->Ok_0@ == t,
            None => rslt == Err::<String, CacheError>(CacheError::InvalidEdit),
        },
{
    let mut cur = text;
    let mut i: usize = 0;
    let ghost log = edits_of(changes@);
    proof {
        assert(log.take(0) =~= Seq::<Edit>::empty());
    }
    while i < changes.len()
        invariant
            i <= changes.len(),
            log == edits_of(changes@),
            replayed(text@, log.take(i as int)) == Some(cur@),
        decreases changes.len() - i,
    {
        proof {
            assert(log.take(i + 1).drop_last() =~= log.take(i as int));
            assert(log.take(i + 1).last() == changes@[i as int]@);
        }
        match changes[i].apply(cur) {
            Ok(next) => {
                cur = next;
            },
            Err(e) => {
                proof {
                    lemma_replayed_none_extends(text@, log, i + 1);
                }
                return Err(e);
            },
        }
        i = i + 1;
    }
    proof {
        assert(log.take(i as int) =~= log);
    }
    Ok(cur)
}

} // verus!
