//! Synchronisation core of a collaborative document editor.
//!
//! Two components hold all state. The change-log cache ([`docs_cache`]) keeps,
//! for each open document, the edits that storage has not seen yet, replays
//! them on the stored text on demand, and says when a document is due to be
//! written back. The session registry ([`registry`]) knows which sessions
//! watch which document and names the receivers of each event. The service
//! ([`docs_service`]) ties each operation on a document to the two.
//!
//! Nothing here waits or does I/O. Storage and the event streams belong to
//! the caller: it hands in the stored text, delivers the events that a call
//! returns to the sessions named with them, and reports what storage
//! answered. A write-back is therefore two calls: one builds the text, the
//! next clears the log once the caller has stored that text.
//!
//! Contracts speak of views: a document's text is a `Seq<char>`, a cache is
//! a `Map` from document id to [`entry::EntryState`], the registry a `Map`
//! from document id to the sequence of its sessions. Methods that change
//! state take `&mut self`, so that a contract can relate the state before a
//! call to the state after it.

pub mod change;
mod clock;
pub mod docs_cache;
pub mod docs_mapper;
pub mod docs_service;
pub mod entry;
pub mod models;
pub mod registry;
pub mod utils;
