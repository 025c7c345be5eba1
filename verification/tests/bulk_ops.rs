use juan_note::bulk::{
    bulk_delete_notes, bulk_update_notes_done, bulk_update_notes_order,
    bulk_update_notes_priority, bulk_update_notes_state, migrate_notes_to_states,
};
use juan_note::db::Db;
use juan_note::migrations::run_migrations;
use juan_note::models::{
    BulkDeleteRequest, BulkUpdateDoneRequest, BulkUpdateOrderRequest, BulkUpdatePriorityRequest,
    BulkUpdateStateRequest, CreateNoteRequest,
};
use juan_note::notes::{create_note, get_all_notes, get_note};
use juan_note::states::get_all_states;

fn fresh_db() -> Db {
    let mut db = Db::open_in_memory().unwrap();
    run_migrations(&mut db).unwrap();
    db
}

fn note(title: &str) -> CreateNoteRequest {
    CreateNoteRequest {
        title: title.to_string(),
        content: "c".to_string(),
        priority: None,
        labels: None,
        deadline: None,
        reminder_minutes: None,
        done: None,
        state_id: None,
        order: None,
    }
}

fn make_note(db: &mut Db, title: &str) -> i64 {
    create_note(db, note(title)).unwrap().data.unwrap().id.unwrap()
}

#[test]
fn bulk_delete_partial_failure() {
    let mut db = fresh_db();
    let a = make_note(&mut db, "a");
    let b = make_note(&mut db, "b");
    let resp = bulk_delete_notes(&mut db, BulkDeleteRequest { note_ids: vec![a, 99999, b] })
        .unwrap();
    assert!(resp.success);
    assert_eq!(resp.successful_count, 2);
    assert_eq!(resp.failed_count, 1);
    assert_eq!(resp.successful_count + resp.failed_count, 3);
    let errors = resp.errors.unwrap();
    assert_eq!(errors, vec!["Note 99999 not found".to_string()]);
    assert!(!get_note(&db, a).unwrap().success);
    assert!(!get_note(&db, b).unwrap().success);
}

#[test]
fn bulk_delete_all_present_has_no_errors() {
    let mut db = fresh_db();
    let a = make_note(&mut db, "a");
    let b = make_note(&mut db, "b");
    let resp = bulk_delete_notes(&mut db, BulkDeleteRequest { note_ids: vec![a, b] }).unwrap();
    assert!(resp.success);
    assert_eq!(resp.successful_count, 2);
    assert_eq!(resp.failed_count, 0);
    assert!(resp.errors.is_none());
}

#[test]
fn bulk_priority_broadcast() {
    let mut db = fresh_db();
    let a = make_note(&mut db, "a");
    let b = make_note(&mut db, "b");
    let c = make_note(&mut db, "c");
    let resp = bulk_update_notes_priority(
        &mut db,
        BulkUpdatePriorityRequest { note_ids: vec![a, c, 7777], priority: 4 },
    )
    .unwrap();
    assert!(resp.success);
    assert_eq!(resp.successful_count, 2);
    assert_eq!(resp.failed_count, 1);
    assert_eq!(resp.errors.unwrap(), vec!["Note 7777 not found".to_string()]);
    assert_eq!(get_note(&db, a).unwrap().data.unwrap().priority, 4);
    assert_eq!(get_note(&db, b).unwrap().data.unwrap().priority, 0);
    assert_eq!(get_note(&db, c).unwrap().data.unwrap().priority, 4);
}

#[test]
fn bulk_done_broadcast() {
    let mut db = fresh_db();
    let a = make_note(&mut db, "a");
    let b = make_note(&mut db, "b");
    let resp = bulk_update_notes_done(
        &mut db,
        BulkUpdateDoneRequest { note_ids: vec![a, b], done: true },
    )
    .unwrap();
    assert_eq!(resp.successful_count, 2);
    assert_eq!(resp.failed_count, 0);
    assert!(get_note(&db, a).unwrap().data.unwrap().done);
    assert!(get_note(&db, b).unwrap().data.unwrap().done);
}

#[test]
fn bulk_state_broadcast_and_foreign_key_failure() {
    let mut db = fresh_db();
    let a = make_note(&mut db, "a");
    let states = get_all_states(&db).unwrap().data;
    let sid = states[0].id.unwrap();
    let ok = bulk_update_notes_state(
        &mut db,
        BulkUpdateStateRequest { note_ids: vec![a], state_id: sid },
    )
    .unwrap();
    assert_eq!(ok.successful_count, 1);
    assert_eq!(get_note(&db, a).unwrap().data.unwrap().state_id, Some(sid));

    // A state id the store does not hold fails the item, not the batch.
    let bad = bulk_update_notes_state(
        &mut db,
        BulkUpdateStateRequest { note_ids: vec![a], state_id: 123456 },
    )
    .unwrap();
    assert!(bad.success);
    assert_eq!(bad.successful_count, 0);
    assert_eq!(bad.failed_count, 1);
    assert!(bad.errors.unwrap()[0].starts_with("Failed to update note "));
    assert_eq!(get_note(&db, a).unwrap().data.unwrap().state_id, Some(sid));
}

#[test]
fn bulk_order_positional_reordering() {
    let mut db = fresh_db();
    let n5 = make_note(&mut db, "five");
    let n6 = make_note(&mut db, "six");
    let n7 = make_note(&mut db, "seven");
    let resp = bulk_update_notes_order(
        &mut db,
        BulkUpdateOrderRequest { note_ids: vec![n5, n6, n7], orders: vec![2, 0, 1] },
    )
    .unwrap();
    assert!(resp.success);
    assert_eq!(resp.successful_count, 3);
    let all = get_all_notes(&db).unwrap().data;
    let titles: Vec<String> = all.iter().map(|n| n.title.clone()).collect();
    assert_eq!(
        titles,
        vec!["six".to_string(), "seven".to_string(), "five".to_string()]
    );
}

#[test]
fn bulk_order_short_array_defaults_to_zero() {
    let mut db = fresh_db();
    let a = make_note(&mut db, "a");
    let b = make_note(&mut db, "b");
    let resp = bulk_update_notes_order(
        &mut db,
        BulkUpdateOrderRequest { note_ids: vec![a, b], orders: vec![9] },
    )
    .unwrap();
    assert_eq!(resp.successful_count, 2);
    assert_eq!(get_note(&db, a).unwrap().data.unwrap().order, 9);
    assert_eq!(get_note(&db, b).unwrap().data.unwrap().order, 0);
}

#[test]
fn sweep_assigns_unassigned_notes_by_inference() {
    let mut db = fresh_db();
    let plain = make_note(&mut db, "plain");
    let mut done_req = note("finished");
    done_req.done = Some(true);
    let done_id = create_note(&mut db, done_req).unwrap().data.unwrap().id.unwrap();
    let mut prog_req = note("active");
    prog_req.labels = Some(vec!["In-Progress".to_string()]);
    let prog_id = create_note(&mut db, prog_req).unwrap().data.unwrap().id.unwrap();

    let resp = migrate_notes_to_states(&mut db).unwrap();
    assert!(resp.success);

    let states = get_all_states(&db).unwrap().data;
    let id_of = |name: &str| {
        states.iter().find(|s| s.name == name).unwrap().id.unwrap()
    };
    assert_eq!(get_note(&db, plain).unwrap().data.unwrap().state_id, Some(id_of("To Do")));
    assert_eq!(get_note(&db, done_id).unwrap().data.unwrap().state_id, Some(id_of("Done")));
    assert_eq!(
        get_note(&db, prog_id).unwrap().data.unwrap().state_id,
        Some(id_of("In Progress"))
    );
}

#[test]
fn sweep_leaves_assigned_notes_alone() {
    let mut db = fresh_db();
    let states = get_all_states(&db).unwrap().data;
    let done_state = states.iter().find(|s| s.name == "Done").unwrap().id.unwrap();
    let mut req = note("already placed");
    req.state_id = Some(done_state);
    let id = create_note(&mut db, req).unwrap().data.unwrap().id.unwrap();
    migrate_notes_to_states(&mut db).unwrap();
    assert_eq!(get_note(&db, id).unwrap().data.unwrap().state_id, Some(done_state));
}
