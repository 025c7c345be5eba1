use juan_note::db::Db;
use juan_note::migrations::{initialize_db, recorded_migration_versions, run_migrations};
use juan_note::models::CreateNoteRequest;
use juan_note::notes::{create_note, get_note};

#[test]
fn fresh_store_records_every_version_once() {
    let mut db = Db::open_in_memory().unwrap();
    run_migrations(&mut db).unwrap();
    let versions = recorded_migration_versions(&db).unwrap();
    assert_eq!(versions, vec![1, 2, 3, 4, 5, 6, 7]);
}

#[test]
fn second_run_records_nothing_new() {
    let mut db = Db::open_in_memory().unwrap();
    run_migrations(&mut db).unwrap();
    let first = recorded_migration_versions(&db).unwrap();
    run_migrations(&mut db).unwrap();
    let second = recorded_migration_versions(&db).unwrap();
    assert_eq!(first, second);
}

#[test]
fn second_run_preserves_data() {
    let mut db = Db::open_in_memory().unwrap();
    run_migrations(&mut db).unwrap();
    let req = CreateNoteRequest {
        title: "kept".to_string(),
        content: "c".to_string(),
        priority: Some(3),
        labels: Some(vec!["l".to_string()]),
        deadline: None,
        reminder_minutes: None,
        done: None,
        state_id: None,
        order: None,
    };
    let id = create_note(&mut db, req).unwrap().data.unwrap().id.unwrap();
    run_migrations(&mut db).unwrap();
    let read = get_note(&db, id).unwrap().data.unwrap();
    assert_eq!(read.title, "kept");
    assert_eq!(read.priority, 3);
    assert_eq!(read.labels, vec!["l".to_string()]);
}

#[test]
fn initialize_db_reports_empty_listing() {
    let mut db = Db::open_in_memory().unwrap();
    let resp = initialize_db(&mut db).unwrap();
    assert!(resp.success);
    assert!(resp.data.is_empty());
    assert!(resp.error.is_none());
    assert_eq!(recorded_migration_versions(&db).unwrap(), vec![1, 2, 3, 4, 5, 6, 7]);
}
