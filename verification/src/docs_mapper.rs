//! From storage rows to what a client is sent when it opens a document.

use vstd::prelude::*;
use crate::models::{DocumentModel, SheetModel};

verus! {

/// A sheet of a document, as a client sees it.
#[derive(Clone, Debug, PartialEq, Eq)]
pub struct SheetEntity {
    pub id: i32,
    pub title: String,
    pub color: String,
    pub created_date: String,
    pub last_editing: String,
    pub uid: String,
    pub created_by_id: String,
    pub project_id: i32,
}

/// The answer to the opening of a document.
#[derive(Clone, Debug, PartialEq, Eq)]
pub struct OpenDocResponse {
    pub color: String,
    pub created_date: String,
    pub last_editing: String,
    pub id: i32,
    pub title: String,
    pub uid: String,
    pub content: String,
    pub sheets: Vec<SheetEntity>,
    pub change_id: u64,
}

/// The text of an optional column: empty where the column is null.
pub open spec fn text_or_empty(column: Option<String>) -> Seq<char> {
    match column {
        Some(text) => text@,
        None => Seq::empty(),
    }
}

/// The text of an optional column: empty where the column is null.
pub fn column_text(column: &Option<String>) -> (text: String)
    ensures
        text@ == text_or_empty(*column),
{
    match column {
        Some(text) => text.clone(),
        None => String::new(),
    }
}

/// Whether `entity` is what a client sees of the row `sheet`.
pub open spec fn shows_sheet(entity: SheetEntity, sheet: SheetModel) -> bool {
    &&& entity.id == sheet.id
    &&& entity.title == sheet.title
    &&& entity.color@ == text_or_empty(sheet.color)
    &&& entity.created_date == sheet.created_date
    &&& entity.last_editing == sheet.last_editing
    &&& entity.uid == sheet.uid
    &&& entity.created_by_id@ == text_or_empty(sheet.created_by_id)
    &&& entity.project_id == sheet.project_id
}

/// What a client sees of a sheet's row.
pub fn sheet_entity(sheet: &SheetModel) -> (entity: SheetEntity)
    ensures
        shows_sheet(entity, *sheet),
{
    SheetEntity {
        id: sheet.id,
        title: sheet.title.clone(),
        color: column_text(&sheet.color),
        created_date: sheet.created_date.clone(),
        last_editing: sheet.last_editing.clone(),
        uid: sheet.uid.clone(),
        created_by_id: column_text(&sheet.created_by_id),
        project_id: sheet.project_id,
    }
}

/// The answer to the opening of a document: the row's metadata, its sheets
/// in their order, and in place of the stored text the current text
/// `content` with its version `change_id`.
pub fn open_doc_response(
    doc: DocumentModel,
    sheets: Vec<SheetModel>,
    content: String,
    change_id: u64,
) -> (res: OpenDocResponse)
    ensures
        res.id == doc.id,
        res.title == doc.title,
        res.uid == doc.uid,
        res.color@ == text_or_empty(doc.color),
        res.created_date == doc.created_date,
        res.last_editing == doc.last_editing,
        res.content == content,
        res.change_id == change_id,
        res.sheets@.len() == sheets@.len(),
        forall|i: int| 0 <= i < sheets@.len() ==> shows_sheet(#[trigger] res.sheets@[i], sheets@[i]),
{
    let mut shown: Vec<SheetEntity> = Vec::new();
    let mut i: usize = 0;
    while i < sheets.len()
        invariant
            i <= sheets.len(),
            shown@.len() == i,
            forall|j: int| 0 <= j < i ==> shows_sheet(#[trigger] shown@[j], sheets@[j]),
        decreases sheets.len() - i,
    {
        shown.push(sheet_entity(&sheets[i]));
        i = i + 1;
    }
    OpenDocResponse {
        color: column_text(&doc.color),
        created_date: doc.created_date,
        last_editing: doc.last_editing,
        id: doc.id,
        title: doc.title,
        uid: doc.uid,
        content,
        sheets: shown,
        change_id,
    }
}

} // verus!
