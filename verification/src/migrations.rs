//! The forward-only schema migration engine.
//!
//! A statically ordered list of schema versions is applied on top of the
//! highest version the store has recorded; each step's version is recorded
//! only after the step has run, and a step is never run twice. Structural
//! statements tolerate "already exists" conditions, so every step can safely
//! be re-run against a partially applied schema.

use vstd::prelude::*;

use crate::chars::{contains_seq, str_chars, to_lower};
use crate::db::{versions_of, Db};
use crate::models::NotesListResponse;

verus! {

/// Highest schema version this build knows.
pub const LATEST_VERSION: i64 = 7;

/// `m` is the highest recorded version: no recorded version exceeds it, and
/// it is itself recorded unless the log is empty and it is zero.
pub open spec fn is_max_version(s: Set<int>, m: int) -> bool {
    &&& forall|v: int| s.contains(v) ==> v <= m
    &&& (m == 0 || s.contains(m))
}

/// The versions one run records on top of a store whose highest recorded
/// version is `latest`: every known version above it.
pub open spec fn pending_set(latest: int) -> Set<int> {
    Set::new(|v: int| 1 <= v && latest < v <= LATEST_VERSION)
}

/// The consecutive run of known versions strictly between two bounds.
pub open spec fn version_run(latest: int, upto: int) -> Set<int> {
    Set::new(|x: int| 1 <= x && latest < x < upto)
}

/// A successful run leaves the log extended by exactly the pending versions.
pub open spec fn migrated(s0: Set<int>, s1: Set<int>) -> bool {
    exists|latest: int| #[trigger] is_max_version(s0, latest) && s1 == s0.union(pending_set(latest))
}

/// Running the engine against a fresh store records exactly the versions
/// one through the latest, with no gaps and no duplicates.
pub proof fn lemma_migration_monotone(s0: Set<int>, s1: Set<int>)
    requires
        s0 == Set::<int>::empty(),
        migrated(s0, s1),
    ensures
        s1 == Set::new(|v: int| 1 <= v <= LATEST_VERSION),
{
    let latest = choose|latest: int|
        #[trigger] is_max_version(s0, latest) && s1 == s0.union(pending_set(latest));
    assert(latest == 0);
    assert(s0.union(pending_set(0)) =~= Set::new(|v: int| 1 <= v <= LATEST_VERSION));
}

/// A second run on an already migrated store records nothing further.
pub proof fn lemma_migration_idempotent(s0: Set<int>, s1: Set<int>, s2: Set<int>)
    requires
        migrated(s0, s1),
        migrated(s1, s2),
    ensures
        s2 == s1,
{
    let l0 = choose|l: int| #[trigger] is_max_version(s0, l) && s1 == s0.union(pending_set(l));
    let l1 = choose|l: int| #[trigger] is_max_version(s1, l) && s2 == s1.union(pending_set(l));
    if l0 < LATEST_VERSION {
        assert(pending_set(l0).contains(LATEST_VERSION as int));
        assert(s1.contains(LATEST_VERSION as int));
        assert(l1 >= LATEST_VERSION);
    } else {
        if s0 == Set::<int>::empty() {
            assert(l0 == 0);
        } else {
            assert(pending_set(l0) =~= Set::<int>::empty());
            assert(s1 =~= s0);
            assert(s1.contains(l0));
            assert(l1 >= l0);
        }
    }
    assert(pending_set(l1) =~= Set::<int>::empty());
    assert(s2 =~= s1);
}

/// Whether a failed structural statement only reports work already done,
/// which a re-runnable migration step treats as a no-op.
fn is_already_applied_error(msg: &String) -> (r: bool)
{
    let m = str_chars(msg.as_str());
    let dup = str_chars("duplicate column name");
    let exists_p = str_chars("already exists");
    let gone = str_chars("no such column");
    contains_seq(&m, &dup) || contains_seq(&m, &exists_p) || contains_seq(&m, &gone)
}

/// Run one schema statement, leaving the version log alone. When `tolerate`
/// is set, an "already applied" failure counts as success; a genuine error
/// propagates.
fn exec_checked(db: &mut Db, sql: &str, tolerate: bool) -> (r: Result<(), String>)
    ensures
        versions_of(*final(db)) == versions_of(*old(db)),
{
    let sv = str_chars(sql);
    let low = to_lower(&sv);
    let p1 = str_chars("schema_migrations");
    let p2 = str_chars("sqlite_master");
    let p3 = str_chars("pragma");
    if contains_seq(&low, &p1) || contains_seq(&low, &p2) || contains_seq(&low, &p3) {
        return Err("schema statement refused".to_owned());
    }
    match db.exec_schema(sql) {
        Ok(_) => Ok(()),
        Err(msg) => {
            if tolerate && is_already_applied_error(&msg) {
                Ok(())
            } else {
                Err(msg)
            }
        },
    }
}

/// Version 1: the notes table, its indexes, the full-text shadow table and
/// the triggers that keep the shadow in sync.
fn migration_001(db: &mut Db) -> (r: Result<(), String>)
    ensures
        versions_of(*final(db)) == versions_of(*old(db)),
{
    exec_checked(
        db,
        "CREATE TABLE IF NOT EXISTS notes (
            id INTEGER PRIMARY KEY AUTOINCREMENT,
            title TEXT NOT NULL,
            content TEXT NOT NULL,
            created_at INTEGER DEFAULT (strftime('%s', 'now')),
            updated_at INTEGER DEFAULT (strftime('%s', 'now')),
            priority INTEGER DEFAULT 0,
            labels TEXT DEFAULT '[]'
        )",
        false,
    )?;
    exec_checked(db, "CREATE INDEX IF NOT EXISTS idx_notes_created_at ON notes(created_at)", false)?;
    exec_checked(db, "CREATE INDEX IF NOT EXISTS idx_notes_priority ON notes(priority)", false)?;
    exec_checked(
        db,
        "CREATE VIRTUAL TABLE IF NOT EXISTS notes_fts USING fts5(
            title, content,
            content=notes,
            content_rowid=id
        )",
        false,
    )?;
    exec_checked(
        db,
        "CREATE TRIGGER IF NOT EXISTS notes_fts_insert AFTER INSERT ON notes
         BEGIN
             INSERT INTO notes_fts(rowid, title, content) VALUES (new.id, new.title, new.content);
         END",
        false,
    )?;
    exec_checked(
        db,
        "CREATE TRIGGER IF NOT EXISTS notes_fts_delete AFTER DELETE ON notes
         BEGIN
             DELETE FROM notes_fts WHERE rowid = old.id;
         END",
        false,
    )?;
    exec_checked(
        db,
        "CREATE TRIGGER IF NOT EXISTS notes_fts_update AFTER UPDATE ON notes
         BEGIN
             UPDATE notes_fts SET title = new.title, content = new.content WHERE rowid = new.id;
         END",
        false,
    )?;
    Ok(())
}

/// Version 2: deadline and reminder columns.
fn migration_002(db: &mut Db) -> (r: Result<(), String>)
    ensures
        versions_of(*final(db)) == versions_of(*old(db)),
{
    exec_checked(db, "ALTER TABLE notes ADD COLUMN deadline INTEGER", true)?;
    exec_checked(db, "ALTER TABLE notes ADD COLUMN reminder_minutes INTEGER DEFAULT 0", true)?;
    Ok(())
}

/// Version 3: the done flag.
fn migration_003(db: &mut Db) -> (r: Result<(), String>)
    ensures
        versions_of(*final(db)) == versions_of(*old(db)),
{
    exec_checked(db, "ALTER TABLE notes ADD COLUMN done INTEGER DEFAULT 0", true)?;
    exec_checked(db, "CREATE INDEX IF NOT EXISTS idx_notes_done ON notes(done)", false)?;
    Ok(())
}

/// Version 4: the states table, the state reference on notes, and the three
/// seeded default columns.
fn migration_004(db: &mut Db) -> (r: Result<(), String>)
    ensures
        versions_of(*final(db)) == versions_of(*old(db)),
{
    exec_checked(
        db,
        "CREATE TABLE IF NOT EXISTS states (
            id INTEGER PRIMARY KEY AUTOINCREMENT,
            name TEXT NOT NULL,
            position INTEGER NOT NULL,
            color TEXT,
            created_at DATETIME DEFAULT CURRENT_TIMESTAMP,
            updated_at DATETIME DEFAULT CURRENT_TIMESTAMP
        )",
        false,
    )?;
    exec_checked(db, "ALTER TABLE notes ADD COLUMN state_id INTEGER REFERENCES states(id)", true)?;
    exec_checked(db, "CREATE INDEX IF NOT EXISTS idx_states_position ON states(position)", false)?;
    exec_checked(db, "CREATE INDEX IF NOT EXISTS idx_notes_state_id ON notes(state_id)", false)?;
    db.seed_default_states()?;
    Ok(())
}

/// Version 5: the manual order column, backfilled from recency so existing
/// notes keep their relative order.
fn migration_005(db: &mut Db) -> (r: Result<(), String>)
    ensures
        versions_of(*final(db)) == versions_of(*old(db)),
{
    exec_checked(db, "ALTER TABLE notes ADD COLUMN \"order\" INTEGER DEFAULT 0", true)?;
    exec_checked(db, "CREATE INDEX IF NOT EXISTS idx_notes_order ON notes(\"order\")", false)?;
    exec_checked(
        db,
        "WITH ordered_notes AS (
            SELECT id, ROW_NUMBER() OVER (ORDER BY updated_at DESC) - 1 as new_order
            FROM notes
        )
        UPDATE notes
        SET \"order\" = (SELECT new_order FROM ordered_notes WHERE ordered_notes.id = notes.id)",
        false,
    )?;
    Ok(())
}

/// Version 6: convert text timestamps to integer epoch seconds, by the
/// temporary-column / copy / drop / rename sequence, on notes and states.
fn migration_006(db: &mut Db) -> (r: Result<(), String>)
    ensures
        versions_of(*final(db)) == versions_of(*old(db)),
{
    exec_checked(db, "ALTER TABLE notes ADD COLUMN created_at_temp INTEGER", true)?;
    exec_checked(db, "ALTER TABLE notes ADD COLUMN updated_at_temp INTEGER", true)?;
    exec_checked(db, "ALTER TABLE notes ADD COLUMN deadline_temp INTEGER", true)?;
    exec_checked(
        db,
        "UPDATE notes
        SET created_at_temp = CASE
            WHEN typeof(created_at) = 'text' THEN strftime('%s', created_at)
            ELSE created_at
        END,
        updated_at_temp = CASE
            WHEN typeof(updated_at) = 'text' THEN strftime('%s', updated_at)
            ELSE updated_at
        END,
        deadline_temp = CASE
            WHEN typeof(deadline) = 'text' AND deadline IS NOT NULL THEN strftime('%s', deadline)
            ELSE deadline
        END",
        false,
    )?;
    exec_checked(db, "ALTER TABLE notes DROP COLUMN created_at", true)?;
    exec_checked(db, "ALTER TABLE notes DROP COLUMN updated_at", true)?;
    exec_checked(db, "ALTER TABLE notes DROP COLUMN deadline", true)?;
    exec_checked(db, "ALTER TABLE notes RENAME COLUMN created_at_temp TO created_at", true)?;
    exec_checked(db, "ALTER TABLE notes RENAME COLUMN updated_at_temp TO updated_at", true)?;
    exec_checked(db, "ALTER TABLE notes RENAME COLUMN deadline_temp TO deadline", true)?;
    exec_checked(db, "ALTER TABLE states ADD COLUMN created_at_temp INTEGER", true)?;
    exec_checked(db, "ALTER TABLE states ADD COLUMN updated_at_temp INTEGER", true)?;
    exec_checked(
        db,
        "UPDATE states
        SET created_at_temp = CASE
            WHEN typeof(created_at) = 'text' THEN strftime('%s', created_at)
            ELSE created_at
        END,
        updated_at_temp = CASE
            WHEN typeof(updated_at) = 'text' THEN strftime('%s', updated_at)
            ELSE updated_at
        END",
        false,
    )?;
    exec_checked(db, "ALTER TABLE states DROP COLUMN created_at", true)?;
    exec_checked(db, "ALTER TABLE states DROP COLUMN updated_at", true)?;
    exec_checked(db, "ALTER TABLE states RENAME COLUMN created_at_temp TO created_at", true)?;
    exec_checked(db, "ALTER TABLE states RENAME COLUMN updated_at_temp TO updated_at", true)?;
    Ok(())
}

/// Version 7: the section tag.
fn migration_007(db: &mut Db) -> (r: Result<(), String>)
    ensures
        versions_of(*final(db)) == versions_of(*old(db)),
{
    exec_checked(db, "ALTER TABLE notes ADD COLUMN section TEXT DEFAULT 'unset'", true)?;
    exec_checked(db, "CREATE INDEX IF NOT EXISTS idx_notes_section ON notes(section)", false)?;
    Ok(())
}

/// Apply the schema step with the given version number.
fn apply_step(db: &mut Db, version: i64) -> (r: Result<(), String>)
    requires
        1 <= version <= 7,
    ensures
        versions_of(*final(db)) == versions_of(*old(db)),
{
    if version == 1 {
        migration_001(db)
    } else if version == 2 {
        migration_002(db)
    } else if version == 3 {
        migration_003(db)
    } else if version == 4 {
        migration_004(db)
    } else if version == 5 {
        migration_005(db)
    } else if version == 6 {
        migration_006(db)
    } else {
        migration_007(db)
    }
}

/// Bring the store's schema from whatever version it records to the latest
/// known version. Steps run in ascending order, each version is recorded
/// right after its step completes, and a recorded version is never re-run.
/// On success the log has grown by exactly the pending versions; on any
/// return the log has grown by a consecutive run of pending versions, so a
/// failing step's version is never recorded and nothing above the failure
/// is touched.
pub fn run_migrations(db: &mut Db) -> (r: Result<(), String>)
    ensures
        r is Ok ==> migrated(versions_of(*old(db)), versions_of(*final(db))),
        versions_of(*final(db)) == versions_of(*old(db)) || exists|latest: int, upto: int|
            is_max_version(versions_of(*old(db)), latest) && upto <= LATEST_VERSION + 1
                && versions_of(*final(db)) == versions_of(*old(db)).union(
                #[trigger] version_run(latest, upto),
            ),
{
    db.ensure_version_table()?;
    let latest = match db.max_version() {
        Ok(m) => m,
        Err(e) => {
            return Err(e);
        },
    };
    let ghost l = latest as int;
    let ghost v0 = versions_of(*db);
    proof {
        assert(is_max_version(v0, l));
        assert(v0.union(Set::new(|x: int| 1 <= x && l < x < 1)) =~= v0);
    }
    let mut v: i64 = 1;
    while v <= LATEST_VERSION
        invariant
            1 <= v <= LATEST_VERSION + 1,
            l == latest as int,
            v0 == versions_of(*old(db)),
            is_max_version(v0, l),
            versions_of(*db) == v0.union(Set::new(|x: int| 1 <= x && l < x < v)),
        decreases LATEST_VERSION + 1 - v,
    {
        let ghost before = versions_of(*db);
        if v > latest {
            match apply_step(db, v) {
                Ok(_) => {},
                Err(e) => {
                    proof {
                        assert(version_run(l, v as int) =~= Set::new(
                            |x: int| 1 <= x && l < x < v,
                        ));
                        assert(versions_of(*db) == versions_of(*old(db)).union(
                            version_run(l, v as int),
                        ));
                    }
                    return Err(e);
                },
            }
            match db.record_version(v) {
                Ok(_) => {
                    proof {
                        assert(versions_of(*db) =~= v0.union(Set::new(|x: int| 1 <= x && l < x < v + 1)));
                    }
                },
                Err(e) => {
                    proof {
                        assert(version_run(l, v as int) =~= Set::new(
                            |x: int| 1 <= x && l < x < v,
                        ));
                        assert(versions_of(*db) == versions_of(*old(db)).union(
                            version_run(l, v as int),
                        ));
                    }
                    return Err(e);
                },
            }
        } else {
            proof {
                assert(v0.union(Set::new(|x: int| 1 <= x && l < x < v)) =~= v0.union(
                    Set::new(|x: int| 1 <= x && l < x < v + 1),
                ));
            }
        }
        v = v + 1;
    }
    proof {
        assert(v0.union(Set::new(|x: int| 1 <= x && l < x < v)) =~= v0.union(pending_set(l)));
        assert(migrated(v0, versions_of(*db)));
        assert(version_run(l, LATEST_VERSION + 1) =~= Set::new(|x: int| 1 <= x && l < x < v));
        assert(versions_of(*db) == v0.union(version_run(l, LATEST_VERSION + 1)));
    }
    Ok(())
}

/// Ensure the store is migrated and report an empty, successful listing, as
/// the application shell expects at startup.
pub fn initialize_db(db: &mut Db) -> (r: Result<NotesListResponse, String>)
    ensures
        r is Ok ==> migrated(versions_of(*old(db)), versions_of(*final(db))),
        r matches Ok(resp) ==> resp.success && resp.data@.len() == 0 && resp.error is None,
{
    run_migrations(db)?;
    Ok(NotesListResponse { success: true, data: Vec::new(), error: None })
}

/// The versions the store has recorded, ascending, each exactly once.
pub fn recorded_migration_versions(db: &Db) -> (r: Result<Vec<i64>, String>)
    ensures
        r matches Ok(v) ==> (forall|i: int|
            0 <= i < v@.len() ==> versions_of(*db).contains(#[trigger] v@[i] as int)),
        r matches Ok(v) ==> (forall|x: int| #[trigger]
            versions_of(*db).contains(x) ==> exists|i: int| 0 <= i < v@.len() && v@[i] as int == x),
        r matches Ok(v) ==> (forall|i: int, j: int|
            0 <= i < j < v@.len() ==> #[trigger] v@[i] < #[trigger] v@[j]),
{
    db.select_versions()
}

} // verus!
