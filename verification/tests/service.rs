use doscenario_docs::change::{CacheError, Change, DocInsert, DocRemove};
use doscenario_docs::docs_mapper::{column_text, open_doc_response, sheet_entity};
use doscenario_docs::docs_service::DocsService;
use doscenario_docs::models::{DocumentModel, SheetModel, UserId, UserModel};
use doscenario_docs::registry::{copy_sessions, holds, others, DocEvent, SessionRegistry};

fn insert(position: i32, content: &str) -> Change {
    Change::Insert(DocInsert { position, content: content.to_string() })
}

fn remove(position: i32, size: i32) -> Change {
    Change::Remove(DocRemove { position, size })
}

fn user(name: &str) -> String {
    name.to_string()
}

#[test]
fn first_subscriber_is_announced_to_nobody_and_confirmed() {
    let mut registry = SessionRegistry::new();
    let out = registry.subscribe(1, 100, user("u1"), user("Ann"));
    assert!(out.announce.targets.is_empty());
    assert_eq!(
        out.announce.event,
        DocEvent::Open { user_id: user("u1"), user_name: user("Ann"), id: 1, session_id: 100 }
    );
    assert_eq!(out.confirm, DocEvent::Subscribed { id: 1, session_id: 100 });
}

#[test]
fn later_subscribers_are_announced_to_those_before_them() {
    let mut registry = SessionRegistry::new();
    registry.subscribe(1, 100, user("u1"), user("Ann"));
    let second = registry.subscribe(1, 200, user("u2"), user("Bob"));
    assert_eq!(second.announce.targets, vec![100]);
    let third = registry.subscribe(1, 300, user("u3"), user("Cid"));
    assert_eq!(third.announce.targets, vec![100, 200]);
    assert_eq!(
        third.announce.event,
        DocEvent::Open { user_id: user("u3"), user_name: user("Cid"), id: 1, session_id: 300 }
    );
    assert_eq!(third.confirm, DocEvent::Subscribed { id: 1, session_id: 300 });
    let elsewhere = registry.subscribe(2, 400, user("u4"), user("Dee"));
    assert!(elsewhere.announce.targets.is_empty());
}

#[test]
fn a_session_id_is_registered_once() {
    let mut registry = SessionRegistry::new();
    registry.subscribe(1, 100, user("u1"), user("Ann"));
    registry.subscribe(1, 100, user("u1"), user("Ann"));
    let out = registry.broadcast(1, DocEvent::Remove { user_id: user("u"), id: 1 });
    assert_eq!(out.targets, vec![100]);
}

#[test]
fn broadcast_reaches_every_session_of_the_document() {
    let mut registry = SessionRegistry::new();
    registry.subscribe(1, 100, user("u1"), user("Ann"));
    registry.subscribe(1, 200, user("u2"), user("Bob"));
    registry.subscribe(2, 300, user("u3"), user("Cid"));
    let event = DocEvent::Close { user_id: user("u9"), id: 1, session_id: 9 };
    let out = registry.broadcast(1, event.clone());
    assert_eq!(out.targets, vec![100, 200]);
    assert_eq!(out.event, event);
    let none = registry.broadcast(3, event);
    assert!(none.targets.is_empty());
}

#[test]
fn write_is_fanned_out_with_the_edits_intact() {
    let mut service = DocsService::new();
    service.subscribe_doc(1, 10, user("a"), user("A"));
    service.subscribe_doc(1, 20, user("b"), user("B"));
    service.subscribe_doc(1, 30, user("c"), user("C"));
    service.open_doc_at(1, "abc".to_string(), 5).unwrap();
    let edits = vec![insert(3, "d"), remove(0, 1)];
    let out = service.write_doc_at(1, 10, user("a"), edits.clone(), 0, 6);
    assert!(out.targets.contains(&20));
    assert!(out.targets.contains(&30));
    assert_eq!(out.targets, vec![10, 20, 30]);
    assert_eq!(
        out.event,
        DocEvent::Write { user_id: user("a"), id: 1, session_id: 10, changes: edits }
    );
    assert_eq!(service.doc_cache.build_doc_changes(1, "abc".to_string()), Ok("bcd".to_string()));
    assert_eq!(service.doc_cache.change_id(1), Some(1));
}

#[test]
fn write_to_a_document_without_cache_entry_is_still_broadcast() {
    let mut service = DocsService::new();
    service.subscribe_doc(1, 10, user("a"), user("A"));
    let out = service.write_doc(1, 10, user("a"), vec![insert(0, "x")], 0);
    assert_eq!(out.targets, vec![10]);
    assert!(!service.doc_cache.is_open(1));
}

#[test]
fn write_without_subscribers_reaches_the_cache_only() {
    let mut service = DocsService::new();
    service.open_doc(1, "a".to_string()).unwrap();
    let out = service.write_doc(1, 10, user("a"), vec![insert(1, "x")], 0);
    assert!(out.targets.is_empty());
    assert_eq!(service.open_doc(1, "a".to_string()), Ok(("ax".to_string(), 1)));
}

#[test]
fn leaving_tells_those_who_stay() {
    let mut service = DocsService::new();
    service.subscribe_doc(1, 10, user("a"), user("A"));
    service.subscribe_doc(1, 20, user("b"), user("B"));
    service.subscribe_doc(1, 30, user("c"), user("C"));
    let out = service.close_doc(1, 20, user("b"));
    assert_eq!(out.notice.targets, vec![10, 30]);
    assert_eq!(out.notice.event, DocEvent::Close { user_id: user("b"), id: 1, session_id: 20 });
    assert!(!out.last_out);
    let again = service.close_doc(1, 20, user("b"));
    assert_eq!(again.notice.targets, vec![10, 30]);
    assert!(!again.last_out);
}

#[test]
fn leaving_a_document_that_nobody_watches_does_nothing() {
    let mut service = DocsService::new();
    let out = service.close_doc(5, 1, user("a"));
    assert!(out.notice.targets.is_empty());
    assert!(!out.last_out);
}

#[test]
fn last_session_out_evicts_the_document() {
    let mut service = DocsService::new();
    let mut stored = "abc".to_string();
    service.subscribe_doc(1, 10, user("a"), user("A"));
    service.open_doc_at(1, stored.clone(), 1).unwrap();
    service.write_doc_at(1, 10, user("a"), vec![insert(3, "d")], 0, 2);
    let out = service.close_doc(1, 10, user("a"));
    assert!(out.last_out);
    assert!(out.notice.targets.is_empty());
    let text = service.doc_cache.build_doc_changes(1, stored.clone()).unwrap();
    stored = text;
    assert_eq!(service.doc_cache.remove_doc(1, Ok(())), Ok(()));
    assert!(!service.doc_cache.is_open(1));
    assert_eq!(stored, "abcd");
    assert_eq!(service.open_doc_at(1, stored.clone(), 3), Ok(("abcd".to_string(), 0)));
    assert_eq!(service.doc_cache.pending_batches(1), Some(0));
    let next = service.subscribe_doc(1, 11, user("a"), user("A"));
    assert!(next.announce.targets.is_empty());
}

#[test]
fn removal_tells_everyone_and_drops_sessions_and_entry() {
    let mut service = DocsService::new();
    service.subscribe_doc(1, 10, user("a"), user("A"));
    service.subscribe_doc(1, 20, user("b"), user("B"));
    service.open_doc_at(1, "abc".to_string(), 1).unwrap();
    service.write_doc_at(1, 10, user("a"), vec![insert(0, "x")], 0, 2);
    let out = service.remove_doc(1, user("b"));
    assert_eq!(out.targets, vec![10, 20]);
    assert_eq!(out.event, DocEvent::Remove { user_id: user("b"), id: 1 });
    assert!(!service.doc_cache.is_open(1));
    let after = service.doc_streams.broadcast(1, DocEvent::Remove { user_id: user("b"), id: 1 });
    assert!(after.targets.is_empty());
    let again = service.remove_doc(1, user("b"));
    assert!(again.targets.is_empty());
}

#[test]
fn service_checksum_goes_by_the_current_text() {
    let mut service = DocsService::new();
    service.open_doc_at(1, "fin".to_string(), 1).unwrap();
    service.write_doc_at(1, 10, user("a"), vec![insert(3, "al")], 0, 2);
    assert_eq!(service.crc_check(1, "fin".to_string(), 0xECD5_5CC6), Ok(true));
    assert_eq!(service.crc_check(1, "fin".to_string(), 0xECD5_5CC7), Ok(false));
    assert_eq!(service.crc_check(2, "fin".to_string(), 0xECD5_5CC6), Err(CacheError::NotFound));
}

#[test]
fn open_reports_an_edit_that_does_not_fit() {
    let mut service = DocsService::new();
    service.open_doc_at(1, "abc".to_string(), 1).unwrap();
    service.write_doc_at(1, 10, user("a"), vec![insert(10, "x")], 0, 2);
    assert_eq!(service.open_doc_at(1, "abc".to_string(), 3), Err(CacheError::InvalidEdit));
    assert_eq!(service.doc_cache.pending_batches(1), Some(1));
}

#[test]
fn session_list_helpers() {
    let sessions = vec![3, 1, 2];
    assert!(holds(&sessions, 1));
    assert!(!holds(&sessions, 4));
    assert_eq!(others(&sessions, 1), vec![3, 2]);
    assert_eq!(others(&sessions, 9), vec![3, 1, 2]);
    assert_eq!(others(&vec![7], 7), Vec::<i64>::new());
    assert_eq!(copy_sessions(&sessions), sessions);
}

fn sheet(id: i32, color: Option<&str>) -> SheetModel {
    SheetModel {
        id,
        content: None,
        uid: format!("sheet-{id}"),
        color: color.map(|c| c.to_string()),
        created_date: "2023-01-01 10:00:00.0".to_string(),
        last_editing: "2023-01-02 10:00:00.0".to_string(),
        project_id: 4,
        title: format!("Sheet {id}"),
        document_id: 9,
        created_by_id: None,
        last_editor_id: None,
    }
}

#[test]
fn open_response_carries_the_current_text_and_the_sheets_in_order() {
    let doc = DocumentModel {
        id: 9,
        content: Some("stored".to_string()),
        created_date: "2023-01-01 09:00:00.0".to_string(),
        project_id: 4,
        created_by_id: Some("u1".to_string()),
        last_editor_id: None,
        title: "Title".to_string(),
        last_editing: "2023-01-03 09:00:00.0".to_string(),
        uid: "doc-9".to_string(),
        color: None,
    };
    let res = open_doc_response(doc, vec![sheet(1, Some("red")), sheet(2, None), sheet(3, None)], "live".to_string(), 12);
    assert_eq!(res.id, 9);
    assert_eq!(res.title, "Title");
    assert_eq!(res.uid, "doc-9");
    assert_eq!(res.color, "");
    assert_eq!(res.created_date, "2023-01-01 09:00:00.0");
    assert_eq!(res.last_editing, "2023-01-03 09:00:00.0");
    assert_eq!(res.content, "live");
    assert_eq!(res.change_id, 12);
    assert_eq!(res.sheets.len(), 3);
    assert_eq!(res.sheets[0].id, 1);
    assert_eq!(res.sheets[0].color, "red");
    assert_eq!(res.sheets[1].id, 2);
    assert_eq!(res.sheets[2].title, "Sheet 3");
}

#[test]
fn sheet_entity_fills_null_columns_with_empty_text() {
    let entity = sheet_entity(&sheet(5, None));
    assert_eq!(entity.id, 5);
    assert_eq!(entity.color, "");
    assert_eq!(entity.created_by_id, "");
    assert_eq!(entity.project_id, 4);
    assert_eq!(entity.uid, "sheet-5");
    assert_eq!(column_text(&Some("x".to_string())), "x");
    assert_eq!(column_text(&None), "");
}

#[test]
fn user_rows_are_plain_values() {
    let row = UserModel { id: "u1".to_string(), name: "Ann".to_string(), password: "SECRET-REDACTED".to_string() };
    let id = UserId(row.id.clone());
    assert_eq!(id.0, "u1");
    assert_eq!(row.clone(), row);
}
