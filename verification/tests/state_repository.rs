use juan_note::db::Db;
use juan_note::migrations::run_migrations;
use juan_note::models::{CreateNoteRequest, CreateStateRequest, UpdateStateRequest};
use juan_note::notes::create_note;
use juan_note::states::{create_state, delete_state, get_all_states, update_state};

fn fresh_db() -> Db {
    let mut db = Db::open_in_memory().unwrap();
    run_migrations(&mut db).unwrap();
    db
}

#[test]
fn seeded_default_states_in_position_order() {
    let db = fresh_db();
    let all = get_all_states(&db).unwrap();
    assert!(all.success);
    let names: Vec<String> = all.data.iter().map(|s| s.name.clone()).collect();
    assert_eq!(
        names,
        vec!["To Do".to_string(), "In Progress".to_string(), "Done".to_string()]
    );
    let positions: Vec<i32> = all.data.iter().map(|s| s.position).collect();
    assert_eq!(positions, vec![0, 1, 2]);
}

#[test]
fn create_state_round_trip() {
    let mut db = fresh_db();
    let resp = create_state(
        &mut db,
        CreateStateRequest {
            name: "Blocked".to_string(),
            position: 9,
            color: Some("#ff0000".to_string()),
        },
    )
    .unwrap();
    assert!(resp.success);
    let st = resp.data.unwrap();
    assert!(st.id.unwrap() > 0);
    assert_eq!(st.name, "Blocked");
    assert_eq!(st.position, 9);
    assert_eq!(st.color, Some("#ff0000".to_string()));
    assert_eq!(st.created_at, st.updated_at);

    let all = get_all_states(&db).unwrap();
    assert_eq!(all.data.len(), 4);
    assert_eq!(all.data[3].name, "Blocked");
}

#[test]
fn update_state_partial_patch() {
    let mut db = fresh_db();
    let st = create_state(
        &mut db,
        CreateStateRequest { name: "Soon".to_string(), position: 5, color: None },
    )
    .unwrap()
    .data
    .unwrap();
    let id = st.id.unwrap();
    let resp = update_state(
        &mut db,
        UpdateStateRequest { id, name: None, position: Some(7), color: None },
    )
    .unwrap();
    assert!(resp.success);
    let after = resp.data.unwrap();
    assert_eq!(after.name, "Soon");
    assert_eq!(after.position, 7);
    assert_eq!(after.created_at, st.created_at);
}

#[test]
fn update_state_empty_patch_rejected() {
    let mut db = fresh_db();
    let st = create_state(
        &mut db,
        CreateStateRequest { name: "Soon".to_string(), position: 5, color: None },
    )
    .unwrap()
    .data
    .unwrap();
    let err = update_state(
        &mut db,
        UpdateStateRequest { id: st.id.unwrap(), name: None, position: None, color: None },
    )
    .unwrap_err();
    assert_eq!(err, "No fields to update");
}

#[test]
fn update_missing_state_reports_not_found() {
    let mut db = fresh_db();
    let resp = update_state(
        &mut db,
        UpdateStateRequest { id: 9999, name: Some("x".to_string()), position: None, color: None },
    )
    .unwrap();
    assert!(!resp.success);
    assert_eq!(resp.error.unwrap(), "State not found");
}

#[test]
fn delete_state_and_not_found() {
    let mut db = fresh_db();
    let st = create_state(
        &mut db,
        CreateStateRequest { name: "Temp".to_string(), position: 50, color: None },
    )
    .unwrap()
    .data
    .unwrap();
    let id = st.id.unwrap();
    let resp = delete_state(&mut db, id).unwrap();
    assert!(resp.success);
    assert_eq!(resp.data.unwrap().name, "Temp");

    let again = delete_state(&mut db, id).unwrap();
    assert!(!again.success);
    assert_eq!(again.error.unwrap(), "State not found");
}

#[test]
fn delete_referenced_state_is_refused() {
    // The store enforces the state reference: deleting a column that notes
    // still use is refused rather than leaving dangling references.
    let mut db = fresh_db();
    let st = create_state(
        &mut db,
        CreateStateRequest { name: "Held".to_string(), position: 40, color: None },
    )
    .unwrap()
    .data
    .unwrap();
    let sid = st.id.unwrap();
    let req = CreateNoteRequest {
        title: "t".to_string(),
        content: "c".to_string(),
        priority: None,
        labels: None,
        deadline: None,
        reminder_minutes: None,
        done: None,
        state_id: Some(sid),
        order: None,
    };
    assert!(create_note(&mut db, req).unwrap().success);
    assert!(delete_state(&mut db, sid).is_err());
    let all = get_all_states(&db).unwrap();
    assert!(all.data.iter().any(|s| s.id == Some(sid)));
}
