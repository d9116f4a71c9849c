use doscenario_docs::change::{copy_changes, replay, CacheError, Change, DocInsert, DocRemove, DocReplace};
use doscenario_docs::utils::{insert_at, RemoveRange};

fn insert(position: i32, content: &str) -> Change {
    Change::Insert(DocInsert { position, content: content.to_string() })
}

fn remove(position: i32, size: i32) -> Change {
    Change::Remove(DocRemove { position, size })
}

fn replace(content: &str) -> Change {
    Change::Replace(DocReplace { content: content.to_string() })
}

#[test]
fn remove_range_takes_out_the_half_open_range() {
    let mut text = "hello world".to_string();
    assert_eq!(text.to_remove_range(5, 11), "hello");
    assert_eq!(text, "hello world");
    assert_eq!(text.to_remove_range(0, 6), "world");
    assert_eq!(text.to_remove_range(3, 3), "hello world");
}

#[test]
fn remove_range_clamps_to_the_text() {
    let mut text = "abc".to_string();
    assert_eq!(text.to_remove_range(1, 101), "a");
    assert_eq!(text.to_remove_range(7, 9), "abc");
    assert_eq!(text.to_remove_range(0, usize::MAX), "");
}

#[test]
fn remove_range_with_inverted_bounds_removes_nothing() {
    let mut text = "abcdef".to_string();
    assert_eq!(text.to_remove_range(4, 2), "abcdef");
}

#[test]
fn remove_range_counts_characters_not_bytes() {
    let mut text = "héllo wörld".to_string();
    assert_eq!(text.to_remove_range(1, 2), "hllo wörld");
    assert_eq!(text.to_remove_range(7, 11), "héllo w");
}

#[test]
fn insert_at_splices_before_the_offset() {
    let text = "held".to_string();
    assert_eq!(insert_at(&text, 3, "lo wor"), "hello word");
    assert_eq!(insert_at(&text, 0, ">"), ">held");
    assert_eq!(insert_at(&text, 4, "!"), "held!");
}

#[test]
fn insert_at_counts_characters_not_bytes() {
    let text = "äöü".to_string();
    assert_eq!(insert_at(&text, 2, "-"), "äö-ü");
}

#[test]
fn replay_insert_at_the_end() {
    let out = replay("hello".to_string(), &vec![insert(5, " world")]);
    assert_eq!(out, Ok("hello world".to_string()));
}

#[test]
fn replay_remove_of_a_suffix() {
    let out = replay("hello world".to_string(), &vec![remove(5, 6)]);
    assert_eq!(out, Ok("hello".to_string()));
}

#[test]
fn replay_replace_then_insert() {
    let out = replay("abc".to_string(), &vec![replace("xyz"), insert(3, "!")]);
    assert_eq!(out, Ok("xyz!".to_string()));
}

#[test]
fn replay_replace_discards_what_was_replayed_before() {
    let out = replay("abc".to_string(), &vec![insert(0, "zzz"), replace("q"), insert(1, "r")]);
    assert_eq!(out, Ok("qr".to_string()));
}

#[test]
fn replay_remove_is_clamped() {
    let out = replay("abc".to_string(), &vec![remove(1, 100)]);
    assert_eq!(out, Ok("a".to_string()));
}

#[test]
fn replay_remove_with_sizes_near_the_limit_does_not_overflow() {
    let out = replay("abc".to_string(), &vec![remove(i32::MAX, i32::MAX)]);
    assert_eq!(out, Ok("abc".to_string()));
    let out = replay("abc".to_string(), &vec![remove(2, i32::MAX)]);
    assert_eq!(out, Ok("ab".to_string()));
}

#[test]
fn replay_remove_with_negative_bounds_is_clamped() {
    let out = replay("abcdef".to_string(), &vec![remove(-2, 4)]);
    assert_eq!(out, Ok("cdef".to_string()));
    let out = replay("abcdef".to_string(), &vec![remove(2, -1)]);
    assert_eq!(out, Ok("abcdef".to_string()));
    let out = replay("abcdef".to_string(), &vec![remove(i32::MIN, i32::MIN)]);
    assert_eq!(out, Ok("abcdef".to_string()));
}

#[test]
fn replay_insert_past_the_end_is_refused() {
    let out = replay("abc".to_string(), &vec![insert(10, "x")]);
    assert_eq!(out, Err(CacheError::InvalidEdit));
}

#[test]
fn replay_insert_at_a_negative_offset_is_refused() {
    let out = replay("abc".to_string(), &vec![insert(-1, "x")]);
    assert_eq!(out, Err(CacheError::InvalidEdit));
}

#[test]
fn replay_stops_at_the_first_edit_that_does_not_fit() {
    let out = replay("abc".to_string(), &vec![insert(4, "x"), replace("fine")]);
    assert_eq!(out, Err(CacheError::InvalidEdit));
}

#[test]
fn replay_insert_offset_is_in_characters() {
    let out = replay("äöü".to_string(), &vec![insert(3, "!")]);
    assert_eq!(out, Ok("äöü!".to_string()));
    let out = replay("äöü".to_string(), &vec![insert(4, "!")]);
    assert_eq!(out, Err(CacheError::InvalidEdit));
}

#[test]
fn replay_of_no_edit_is_the_text() {
    assert_eq!(replay("same".to_string(), &vec![]), Ok("same".to_string()));
}

#[test]
fn apply_single_changes() {
    assert_eq!(insert(1, "-").apply("ab".to_string()), Ok("a-b".to_string()));
    assert_eq!(remove(0, 1).apply("ab".to_string()), Ok("b".to_string()));
    assert_eq!(replace("").apply("ab".to_string()), Ok(String::new()));
    assert_eq!(insert(3, "-").apply("ab".to_string()), Err(CacheError::InvalidEdit));
}

#[test]
fn copies_are_equal_to_the_changes() {
    let changes = vec![insert(1, "a"), remove(2, 3), replace("z")];
    assert_eq!(copy_changes(&changes), changes);
    assert_eq!(changes[0].duplicate(), insert(1, "a"));
}

#[test]
fn error_messages() {
    assert_eq!(CacheError::NotFound.message(), "Document not found");
    assert_eq!(CacheError::InvalidEdit.message(), "Invalid insert position");
    assert_eq!(CacheError::Upstream.message(), "Storage failure");
}
