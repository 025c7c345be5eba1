use juan_note::db::Db;
use juan_note::migrations::run_migrations;
use juan_note::models::{CreateNoteRequest, DeleteNoteRequest, SearchRequest};
use juan_note::notes::{create_note, delete_note};
use juan_note::search::{enhance_search_query, search_notes};

fn fresh_db() -> Db {
    let mut db = Db::open_in_memory().unwrap();
    run_migrations(&mut db).unwrap();
    db
}

fn note(title: &str, content: &str) -> CreateNoteRequest {
    CreateNoteRequest {
        title: title.to_string(),
        content: content.to_string(),
        priority: None,
        labels: None,
        deadline: None,
        reminder_minutes: None,
        done: None,
        state_id: None,
        order: None,
    }
}

fn search(db: &Db, query: &str) -> Vec<String> {
    let resp = search_notes(
        db,
        SearchRequest { query: query.to_string(), limit: None, offset: None },
    )
    .unwrap();
    assert!(resp.success);
    resp.data.iter().map(|n| n.title.clone()).collect()
}

#[test]
fn enhance_single_word_prefix_match() {
    assert_eq!(enhance_search_query("hello"), "title:hello* OR content:hello*");
}

#[test]
fn enhance_trims_surrounding_space() {
    assert_eq!(enhance_search_query("  hello  "), "title:hello* OR content:hello*");
    assert_eq!(enhance_search_query("   "), "");
    assert_eq!(enhance_search_query(""), "");
}

#[test]
fn enhance_multiple_words_or_joined() {
    assert_eq!(
        enhance_search_query("foo bar"),
        "(title:foo* OR content:foo*) OR (title:bar* OR content:bar*)"
    );
    assert_eq!(
        enhance_search_query("a b c"),
        "(title:a* OR content:a*) OR (title:b* OR content:b*) OR (title:c* OR content:c*)"
    );
}

#[test]
fn enhance_keeps_operator_queries() {
    assert_eq!(enhance_search_query("title:x*"), "title:x*");
    assert_eq!(enhance_search_query("alpha AND beta"), "alpha AND beta");
    assert_eq!(enhance_search_query("\"exact phrase\""), "\"exact phrase\"");
    assert_eq!(enhance_search_query("alpha NOT beta"), "alpha NOT beta");
}

#[test]
fn empty_query_lists_default_order() {
    let mut db = fresh_db();
    let mut a = note("first", "c");
    a.order = Some(2);
    let mut b = note("second", "c");
    b.order = Some(1);
    create_note(&mut db, a).unwrap();
    create_note(&mut db, b).unwrap();
    assert_eq!(search(&db, ""), vec!["second".to_string(), "first".to_string()]);
}

#[test]
fn substring_search_is_case_insensitive() {
    let mut db = fresh_db();
    create_note(&mut db, note("Grocery Run", "buy MILK and eggs")).unwrap();
    create_note(&mut db, note("unrelated", "nothing here")).unwrap();
    assert_eq!(search(&db, "milk"), vec!["Grocery Run".to_string()]);
    assert_eq!(search(&db, "GROCERY"), vec!["Grocery Run".to_string()]);
}

#[test]
fn substring_search_matches_partial_words() {
    let mut db = fresh_db();
    create_note(&mut db, note("planning", "quarterly roadmap")).unwrap();
    assert_eq!(search(&db, "oadma"), vec!["planning".to_string()]);
}

#[test]
fn search_idempotent_without_writes() {
    let mut db = fresh_db();
    create_note(&mut db, note("alpha one", "x")).unwrap();
    create_note(&mut db, note("alpha two", "x")).unwrap();
    create_note(&mut db, note("beta", "x")).unwrap();
    let first = search(&db, "alpha");
    let second = search(&db, "alpha");
    assert_eq!(first, second);
    assert_eq!(first.len(), 2);
}

#[test]
fn structured_query_uses_full_text_engine() {
    let mut db = fresh_db();
    create_note(&mut db, note("project kickoff", "plan the roadmap")).unwrap();
    create_note(&mut db, note("groceries", "milk")).unwrap();
    let titles = search(&db, "plan AND roadmap");
    assert_eq!(titles, vec!["project kickoff".to_string()]);
}

#[test]
fn rejected_structured_query_falls_back_to_substring() {
    let mut db = fresh_db();
    create_note(&mut db, note("notes", "he said \"AND then we left")).unwrap();
    // The unbalanced quote is a full-text syntax error; the substring
    // fallback still finds the note instead of propagating the failure.
    let titles = search(&db, "\"AND");
    assert_eq!(titles, vec!["notes".to_string()]);
}

#[test]
fn deleted_note_is_absent_from_search() {
    let mut db = fresh_db();
    let resp = create_note(&mut db, note("findme", "content")).unwrap();
    let id = resp.data.unwrap().id.unwrap();
    assert_eq!(search(&db, "findme"), vec!["findme".to_string()]);
    assert!(delete_note(&mut db, DeleteNoteRequest { id }).unwrap().success);
    assert_eq!(search(&db, "findme"), Vec::<String>::new());
    assert_eq!(search(&db, ""), Vec::<String>::new());
}

#[test]
fn search_respects_limit_and_offset() {
    let mut db = fresh_db();
    for i in 0..5 {
        let mut r = note(&format!("item{}", i), "same text");
        r.order = Some(i);
        create_note(&mut db, r).unwrap();
    }
    let page = search_notes(
        &db,
        SearchRequest { query: "same".to_string(), limit: Some(2), offset: Some(1) },
    )
    .unwrap();
    assert!(page.success);
    let titles: Vec<String> = page.data.iter().map(|n| n.title.clone()).collect();
    assert_eq!(titles, vec!["item1".to_string(), "item2".to_string()]);
}

#[test]
fn long_unstructured_query_uses_prefix_matching() {
    let mut db = fresh_db();
    create_note(&mut db, note("sprint notes", "plan the next quarterly team sync")).unwrap();
    create_note(&mut db, note("groceries", "milk")).unwrap();
    // Four terms make the query structured, so the full-text engine answers
    // with each term prefix-matched.
    let titles = search(&db, "plan quarterly team sync");
    assert_eq!(titles, vec!["sprint notes".to_string()]);
}
