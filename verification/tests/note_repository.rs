use juan_note::db::Db;
use juan_note::migrations::run_migrations;
use juan_note::models::{CreateNoteRequest, DeleteNoteRequest, UpdateNoteDoneRequest, UpdateNoteRequest};
use juan_note::notes::{create_note, delete_note, get_all_notes, get_note, update_note, update_note_done};

fn fresh_db() -> Db {
    let mut db = Db::open_in_memory().unwrap();
    run_migrations(&mut db).unwrap();
    db
}

fn plain_create(title: &str, content: &str) -> CreateNoteRequest {
    CreateNoteRequest {
        title: title.to_string(),
        content: content.to_string(),
        priority: None,
        labels: None,
        deadline: None,
        reminder_minutes: None,
        done: None,
        state_id: None,
        order: None,
    }
}

fn empty_patch(id: i64) -> UpdateNoteRequest {
    UpdateNoteRequest {
        id,
        title: None,
        content: None,
        priority: None,
        labels: None,
        deadline: None,
        reminder_minutes: None,
        done: None,
        state_id: None,
        order: None,
    }
}

#[test]
fn create_then_read_round_trip() {
    let mut db = fresh_db();
    let mut req = plain_create("Buy milk", "2%");
    req.priority = Some(2);
    let resp = create_note(&mut db, req).unwrap();
    assert!(resp.success);
    let note = resp.data.unwrap();
    let id = note.id.unwrap();
    assert!(id > 0);
    assert_eq!(note.title, "Buy milk");
    assert_eq!(note.content, "2%");
    assert_eq!(note.priority, 2);
    assert!(!note.done);
    assert_eq!(note.labels, Vec::<String>::new());
    assert_eq!(note.created_at, note.updated_at);

    let read = get_note(&db, id).unwrap();
    assert!(read.success);
    let back = read.data.unwrap();
    assert_eq!(back.title, "Buy milk");
    assert_eq!(back.content, "2%");
    assert_eq!(back.priority, 2);
    assert_eq!(back.created_at, note.created_at);
    assert_eq!(back.updated_at, note.updated_at);
}

#[test]
fn create_stamps_equal_timestamps() {
    let mut db = fresh_db();
    let resp = create_note(&mut db, plain_create("t", "c")).unwrap();
    let note = resp.data.unwrap();
    assert!(note.created_at.is_some());
    assert_eq!(note.created_at, note.updated_at);
}

#[test]
fn done_scenario_and_delete() {
    let mut db = fresh_db();
    let resp = create_note(&mut db, plain_create("Buy milk", "2%")).unwrap();
    let note = resp.data.unwrap();
    let id = note.id.unwrap();

    let done_resp = update_note_done(&mut db, UpdateNoteDoneRequest { id, done: true }).unwrap();
    assert!(done_resp.success);

    let read = get_note(&db, id).unwrap();
    assert!(read.success);
    let after = read.data.unwrap();
    assert!(after.done);
    assert_eq!(after.created_at, note.created_at);
    assert!(after.updated_at.unwrap() >= note.updated_at.unwrap());

    let deleted = delete_note(&mut db, DeleteNoteRequest { id }).unwrap();
    assert!(deleted.success);
    assert_eq!(deleted.data.unwrap().id, Some(id));

    let gone = get_note(&db, id).unwrap();
    assert!(!gone.success);
    assert_eq!(gone.error.unwrap(), "Note not found");
}

#[test]
fn delete_missing_note_reports_not_found() {
    let mut db = fresh_db();
    let resp = delete_note(&mut db, DeleteNoteRequest { id: 424242 }).unwrap();
    assert!(!resp.success);
    assert_eq!(resp.error.unwrap(), "Note not found");
}

#[test]
fn redelete_reports_not_found() {
    let mut db = fresh_db();
    let resp = create_note(&mut db, plain_create("x", "y")).unwrap();
    let id = resp.data.unwrap().id.unwrap();
    assert!(delete_note(&mut db, DeleteNoteRequest { id }).unwrap().success);
    let second = delete_note(&mut db, DeleteNoteRequest { id }).unwrap();
    assert!(!second.success);
    assert_eq!(second.error.unwrap(), "Note not found");
}

#[test]
fn empty_patch_is_rejected_without_mutation() {
    let mut db = fresh_db();
    let resp = create_note(&mut db, plain_create("t", "c")).unwrap();
    let note = resp.data.unwrap();
    let id = note.id.unwrap();

    let err = update_note(&mut db, empty_patch(id)).unwrap_err();
    assert_eq!(err, "No fields to update");

    let read = get_note(&db, id).unwrap().data.unwrap();
    assert_eq!(read.updated_at, note.updated_at);
    assert_eq!(read.title, "t");
}

#[test]
fn partial_update_touches_only_supplied_fields() {
    let mut db = fresh_db();
    let mut req = plain_create("old title", "old content");
    req.priority = Some(1);
    req.labels = Some(vec!["keep".to_string()]);
    let note = create_note(&mut db, req).unwrap().data.unwrap();
    let id = note.id.unwrap();

    let mut patch = empty_patch(id);
    patch.content = Some("new content".to_string());
    patch.priority = Some(5);
    let updated = update_note(&mut db, patch).unwrap();
    assert!(updated.success);
    let after = updated.data.unwrap();
    assert_eq!(after.title, "old title");
    assert_eq!(after.content, "new content");
    assert_eq!(after.priority, 5);
    assert_eq!(after.labels, vec!["keep".to_string()]);
    assert_eq!(after.created_at, note.created_at);
}

#[test]
fn update_missing_note_reports_not_found() {
    let mut db = fresh_db();
    let mut patch = empty_patch(99999);
    patch.title = Some("anything".to_string());
    let resp = update_note(&mut db, patch).unwrap();
    assert!(!resp.success);
    assert_eq!(resp.error.unwrap(), "Note not found");
}

#[test]
fn labels_survive_storage() {
    let mut db = fresh_db();
    let mut req = plain_create("t", "c");
    req.labels = Some(vec!["alpha".to_string(), "say \"hi\"".to_string(), "line\nbreak".to_string()]);
    let note = create_note(&mut db, req).unwrap().data.unwrap();
    let read = get_note(&db, note.id.unwrap()).unwrap().data.unwrap();
    assert_eq!(
        read.labels,
        vec!["alpha".to_string(), "say \"hi\"".to_string(), "line\nbreak".to_string()]
    );
}

#[test]
fn get_all_notes_orders_by_order_then_recency() {
    let mut db = fresh_db();
    let mut a = plain_create("a", "c");
    a.order = Some(3);
    let mut b = plain_create("b", "c");
    b.order = Some(1);
    let mut c = plain_create("c", "c");
    c.order = Some(2);
    create_note(&mut db, a).unwrap();
    create_note(&mut db, b).unwrap();
    create_note(&mut db, c).unwrap();
    let all = get_all_notes(&db).unwrap();
    assert!(all.success);
    let titles: Vec<String> = all.data.iter().map(|n| n.title.clone()).collect();
    assert_eq!(titles, vec!["b".to_string(), "c".to_string(), "a".to_string()]);
}

#[test]
fn note_builders_replace_single_fields() {
    let mut db = fresh_db();
    let note = create_note(&mut db, plain_create("t", "c")).unwrap().data.unwrap();
    let built = note
        .with_priority(4)
        .with_done(true)
        .with_reminder_minutes(15)
        .with_deadline(1000)
        .with_labels(vec!["z".to_string()]);
    assert_eq!(built.priority, 4);
    assert!(built.done);
    assert_eq!(built.reminder_minutes, 15);
    assert_eq!(built.deadline, Some(1000));
    assert_eq!(built.labels, vec!["z".to_string()]);
    assert_eq!(built.title, "t");
}

#[test]
fn create_with_every_field_set() {
    let mut db = fresh_db();
    let states = juan_note::states::get_all_states(&db).unwrap().data;
    let sid = states[0].id.unwrap();
    let req = CreateNoteRequest {
        title: "full".to_string(),
        content: "body".to_string(),
        priority: Some(3),
        labels: Some(vec!["x".to_string(), "y".to_string()]),
        deadline: Some(1_700_000_000),
        reminder_minutes: Some(30),
        done: Some(true),
        state_id: Some(sid),
        order: Some(12),
    };
    let note = create_note(&mut db, req).unwrap().data.unwrap();
    assert_eq!(note.priority, 3);
    assert_eq!(note.labels, vec!["x".to_string(), "y".to_string()]);
    assert_eq!(note.deadline, Some(1_700_000_000));
    assert_eq!(note.reminder_minutes, 30);
    assert!(note.done);
    assert_eq!(note.state_id, Some(sid));
    assert_eq!(note.order, 12);
    let back = get_note(&db, note.id.unwrap()).unwrap().data.unwrap();
    assert_eq!(back.deadline, Some(1_700_000_000));
    assert_eq!(back.state_id, Some(sid));
    assert_eq!(back.order, 12);
}

#[test]
fn update_replaces_labels() {
    let mut db = fresh_db();
    let mut req = plain_create("t", "c");
    req.labels = Some(vec!["old".to_string()]);
    let id = create_note(&mut db, req).unwrap().data.unwrap().id.unwrap();
    let mut patch = empty_patch(id);
    patch.labels = Some(vec!["new one".to_string(), "new two".to_string()]);
    let resp = update_note(&mut db, patch).unwrap();
    assert!(resp.success);
    let back = get_note(&db, id).unwrap().data.unwrap();
    assert_eq!(back.labels, vec!["new one".to_string(), "new two".to_string()]);
}
