//! The embedded store and the trusted boundary around it.
//!
//! `Db` owns the one physical SQLite connection. The logical contents of the
//! store are modelled by three uninterpreted functions — the notes table, the
//! states table and the migration version log — and every statement the
//! repository runs goes through a small wrapper whose contract says, over
//! that model, what the statement does. Everything above these wrappers is
//! verified against their contracts.

use vstd::prelude::*;

use crate::chars::{has_substr, lower_seq};
use rusqlite::OptionalExtension;

verus! {

#[verifier::external_type_specification]
#[verifier::external_body]
pub struct ExConnection(rusqlite::Connection);

/// One stored row of the notes table. `done` keeps the raw stored integer;
/// `labels_json` keeps the serialized label text.
pub struct NoteRow {
    pub id: i64,
    pub title: String,
    pub content: String,
    pub created_at: i64,
    pub updated_at: i64,
    pub priority: i32,
    pub labels_json: String,
    pub deadline: Option<i64>,
    pub reminder_minutes: i32,
    pub done: i64,
    pub state_id: Option<i64>,
    pub order: i32,
}

/// One stored row of the states table.
pub struct StateRow {
    pub id: i64,
    pub name: String,
    pub position: i32,
    pub color: Option<String>,
    pub created_at: i64,
    pub updated_at: i64,
}

/// What the notes table of a store holds, keyed by row id.
pub uninterp spec fn notes_of(db: Db) -> Map<int, NoteRow>;

/// What the states table of a store holds, keyed by row id.
pub uninterp spec fn states_of(db: Db) -> Map<int, StateRow>;

/// The set of migration versions a store has recorded in its version log.
pub uninterp spec fn versions_of(db: Db) -> Set<int>;

/// The retrieval order of notes: caller-assigned order ascending, then
/// recency (update time) descending.
pub open spec fn note_le(a: NoteRow, b: NoteRow) -> bool {
    a.order < b.order || (a.order == b.order && a.updated_at >= b.updated_at)
}

/// Every returned row is a row of the table, under its own id.
pub open spec fn note_rows_sound(v: Seq<NoteRow>, m: Map<int, NoteRow>) -> bool {
    forall|i: int| 0 <= i < v.len() ==> m.contains_pair(#[trigger] v[i].id as int, v[i])
}

/// Every id of the table appears among the returned rows.
pub open spec fn note_rows_complete(v: Seq<NoteRow>, m: Map<int, NoteRow>) -> bool {
    forall|id: int| #[trigger]
        m.dom().contains(id) ==> exists|i: int| 0 <= i < v.len() && v[i].id == id
}

/// No id appears twice among the returned rows.
pub open spec fn note_rows_distinct(v: Seq<NoteRow>) -> bool {
    forall|i: int, j: int| 0 <= i < j < v.len() ==> #[trigger] v[i].id != #[trigger] v[j].id
}

/// The rows stand in retrieval order.
pub open spec fn note_rows_sorted(v: Seq<NoteRow>) -> bool {
    forall|i: int, j: int| 0 <= i < j < v.len() ==> note_le(#[trigger] v[i], #[trigger] v[j])
}

/// As `note_rows_sound`, for states.
pub open spec fn state_rows_sound(v: Seq<StateRow>, m: Map<int, StateRow>) -> bool {
    forall|i: int| 0 <= i < v.len() ==> m.contains_pair(#[trigger] v[i].id as int, v[i])
}

/// As `note_rows_complete`, for states.
pub open spec fn state_rows_complete(v: Seq<StateRow>, m: Map<int, StateRow>) -> bool {
    forall|id: int| #[trigger]
        m.dom().contains(id) ==> exists|i: int| 0 <= i < v.len() && v[i].id == id
}

/// As `note_rows_distinct`, for states.
pub open spec fn state_rows_distinct(v: Seq<StateRow>) -> bool {
    forall|i: int, j: int| 0 <= i < j < v.len() ==> #[trigger] v[i].id != #[trigger] v[j].id
}

/// States are retrieved by position ascending.
pub open spec fn state_rows_sorted(v: Seq<StateRow>) -> bool {
    forall|i: int, j: int| 0 <= i < j < v.len() ==> #[trigger] v[i].position <= #[trigger] v[j].position
}

/// A substring pattern with no wildcard inside: one percent sign at each
/// end and neither a percent sign nor an underscore between them.
pub open spec fn plain_pattern(p: Seq<char>) -> bool {
    &&& p.len() >= 2
    &&& p[0] == '%'
    &&& p[p.len() - 1] == '%'
    &&& forall|k: int| 1 <= k < p.len() - 1 ==> p[k] != '%' && #[trigger] p[k] != '_'
}

/// The text between the two percent signs.
pub open spec fn like_interior(p: Seq<char>) -> Seq<char> {
    p.subrange(1, p.len() - 1)
}

/// The sought text occurs in the row's title or content, compared with
/// ASCII case folding.
pub open spec fn like_hit(p: Seq<char>, row: NoteRow) -> bool {
    ||| crate::chars::has_substr(lower_seq(row.title@), lower_seq(like_interior(p)))
    ||| crate::chars::has_substr(lower_seq(row.content@), lower_seq(like_interior(p)))
}

/// What a substring search promises of a returned row: whenever the pattern
/// is a plain wildcard-free one, the sought text occurs in it.
pub open spec fn like_row_matches(p: Seq<char>, row: NoteRow) -> bool {
    plain_pattern(p) ==> like_hit(p, row)
}

/// What the full-text engine returns for a match expression over the notes
/// a store holds, under a limit and offset. FTS5's ranked match is a
/// deterministic computation over those values alone, so its result bears a
/// name.
pub uninterp spec fn fts_page(
    expr: Seq<char>,
    notes: Map<int, NoteRow>,
    limit: int,
    offset: int,
) -> Seq<NoteRow>;

/// The row with its id replaced by the one the store assigned.
pub open spec fn note_with_id(row: NoteRow, id: i64) -> NoteRow {
    NoteRow { id: id, ..row }
}

/// The row after a done-flag update.
pub open spec fn note_with_done(row: NoteRow, done: i64, now: i64) -> NoteRow {
    NoteRow { done: done, updated_at: now, ..row }
}

/// The row after a priority update.
pub open spec fn note_with_priority(row: NoteRow, priority: i32, now: i64) -> NoteRow {
    NoteRow { priority: priority, updated_at: now, ..row }
}

/// The row after a state assignment.
pub open spec fn note_with_state(row: NoteRow, state_id: i64, now: i64) -> NoteRow {
    NoteRow { state_id: Some(state_id), updated_at: now, ..row }
}

/// The row after an order update.
pub open spec fn note_with_order(row: NoteRow, order: i32, now: i64) -> NoteRow {
    NoteRow { order: order, updated_at: now, ..row }
}

/// As `note_with_id`, for states.
pub open spec fn state_with_id(row: StateRow, id: i64) -> StateRow {
    StateRow { id: id, ..row }
}

/// Three fresh, distinct rows were added to the states table: the default
/// kanban columns "To Do", "In Progress" and "Done" at positions zero, one
/// and two, with their display colors.
pub open spec fn seeded_states(
    m0: Map<int, StateRow>,
    m1: Map<int, StateRow>,
    i1: int,
    i2: int,
    i3: int,
    r1: StateRow,
    r2: StateRow,
    r3: StateRow,
) -> bool {
    &&& !m0.dom().contains(i1) && !m0.dom().contains(i2) && !m0.dom().contains(i3)
    &&& i1 != i2 && i1 != i3 && i2 != i3
    &&& m1 == m0.insert(i1, r1).insert(i2, r2).insert(i3, r3)
    &&& r1.name@ == "To Do"@ && r1.position == 0 && (r1.color matches Some(c) && c@ == "#75715E"@)
    &&& r2.name@ == "In Progress"@ && r2.position == 1 && (r2.color matches Some(c) && c@
        == "#66D9EF"@)
    &&& r3.name@ == "Done"@ && r3.position == 2 && (r3.color matches Some(c) && c@ == "#A6E22E"@)
}

/// A store with no note, no state and no recorded version.
pub open spec fn db_empty(db: Db) -> bool {
    &&& notes_of(db) == Map::<int, NoteRow>::empty()
    &&& states_of(db) == Map::<int, StateRow>::empty()
    &&& versions_of(db) == Set::<int>::empty()
}

/// The one handle to the embedded store. All repository operations borrow
/// it; callers that share it across threads put it behind one lock.
pub struct Db {
    conn: rusqlite::Connection,
}

impl Db {
    /// Relies on rusqlite's `Connection::open` and `Connection::pragma_update`:
    /// opens (creating if absent) the store file and applies the durability
    /// and performance configuration. Nothing is known of the contents of a
    /// pre-existing file.
    #[verifier::external_body]
    pub fn open(path: &str) -> Result<Db, String> {
        let conn = rusqlite::Connection::open(path).map_err(|e| e.to_string())?;
        conn.pragma_update(None, "journal_mode", "WAL").map_err(|e| e.to_string())?;
        conn.pragma_update(None, "synchronous", "NORMAL").map_err(|e| e.to_string())?;
        conn.pragma_update(None, "cache_size", -64000).map_err(|e| e.to_string())?;
        conn.pragma_update(None, "foreign_keys", "ON").map_err(|e| e.to_string())?;
        Ok(Db { conn })
    }

    /// Relies on rusqlite's `Connection::open_in_memory`: a fresh store with
    /// no tables, so every modelled table is empty.
    #[verifier::external_body]
    pub fn open_in_memory() -> (r: Result<Db, String>)
        ensures
            r is Ok ==> db_empty(r->Ok_0),
    {
        let conn = rusqlite::Connection::open_in_memory().map_err(|e| e.to_string())?;
        conn.pragma_update(None, "foreign_keys", "ON").map_err(|e| e.to_string())?;
        Ok(Db { conn })
    }

    /// Relies on chrono's `Utc::now`: the current time in seconds since the
    /// Unix epoch. Nothing is promised of the value.
    #[verifier::external_body]
    pub fn now_epoch(&self) -> i64 {
        chrono::Utc::now().timestamp()
    }

    /// Relies on rusqlite's `Connection::execute`: runs one schema statement.
    /// The statement text, compared after ASCII case folding because the
    /// store resolves identifiers case-insensitively, is required to stay
    /// away from the version log and from SQLite's own schema controls, so
    /// the recorded versions are unaffected.
    #[verifier::external_body]
    pub(crate) fn exec_schema(&mut self, sql: &str) -> (r: Result<usize, String>)
        requires
            !has_substr(lower_seq(sql@), "schema_migrations"@),
            !has_substr(lower_seq(sql@), "sqlite_master"@),
            !has_substr(lower_seq(sql@), "pragma"@),
        ensures
            versions_of(*final(self)) == versions_of(*old(self)),
    {
        self.conn.execute(sql, []).map_err(|e| e.to_string())
    }

    /// Relies on rusqlite's `Connection::execute`: creates the version-log
    /// table when absent. Creating an empty table records no versions, and
    /// the note and state rows are untouched.
    #[verifier::external_body]
    pub(crate) fn ensure_version_table(&mut self) -> (r: Result<(), String>)
        ensures
            versions_of(*final(self)) == versions_of(*old(self)),
            notes_of(*final(self)) == notes_of(*old(self)),
            states_of(*final(self)) == states_of(*old(self)),
    {
        let sql = "CREATE TABLE IF NOT EXISTS schema_migrations (
            version INTEGER PRIMARY KEY,
            applied_at DATETIME DEFAULT CURRENT_TIMESTAMP
        )";
        self.conn.execute(sql, []).map(|_| ()).map_err(|e| e.to_string())
    }

    /// Relies on rusqlite's `Connection::query_row`: the largest recorded
    /// version, or zero when the log is empty.
    #[verifier::external_body]
    pub(crate) fn max_version(&self) -> (r: Result<i64, String>)
        ensures
            r matches Ok(m) ==> (forall|v: int| versions_of(*self).contains(v) ==> v <= m) && (m
                == 0 || versions_of(*self).contains(m as int)),
    {
        self.conn.query_row("SELECT COALESCE(MAX(version), 0) FROM schema_migrations", [], |row| {
            row.get(0)
        }).map_err(|e| e.to_string())
    }

    /// Relies on rusqlite's `Connection::execute`: appends one version to the
    /// log. On failure the statement has no effect.
    #[verifier::external_body]
    pub(crate) fn record_version(&mut self, version: i64) -> (r: Result<(), String>)
        ensures
            r is Ok ==> versions_of(*final(self)) == versions_of(*old(self)).insert(version as int),
            r is Err ==> versions_of(*final(self)) == versions_of(*old(self)),
    {
        self.conn.execute("INSERT INTO schema_migrations (version) VALUES (?)", [version]).map(
            |_| (),
        ).map_err(|e| e.to_string())
    }
}

/// Assemble a note row from its column values.
pub(crate) fn note_row_build(
    id: i64,
    title: String,
    content: String,
    created_at: i64,
    updated_at: i64,
    priority: i32,
    labels_json: String,
    deadline: Option<i64>,
    reminder_minutes: i32,
    done: i64,
    state_id: Option<i64>,
    order: i32,
) -> (r: NoteRow)
    ensures
        r == (NoteRow {
            id,
            title,
            content,
            created_at,
            updated_at,
            priority,
            labels_json,
            deadline,
            reminder_minutes,
            done,
            state_id,
            order,
        }),
{
    NoteRow {
        id,
        title,
        content,
        created_at,
        updated_at,
        priority,
        labels_json,
        deadline,
        reminder_minutes,
        done,
        state_id,
        order,
    }
}

/// Assemble a state row from its column values.
pub(crate) fn state_row_build(
    id: i64,
    name: String,
    position: i32,
    color: Option<String>,
    created_at: i64,
    updated_at: i64,
) -> (r: StateRow)
    ensures
        r == (StateRow { id, name, position, color, created_at, updated_at }),
{
    StateRow { id, name, position, color, created_at, updated_at }
}

impl Db {
    /// Relies on rusqlite's `Connection::execute` and `last_insert_rowid`:
    /// inserts one note row and reports the id the store assigned. The id is
    /// positive and, the table being declared AUTOINCREMENT, strictly above
    /// every stored id; the new table holds exactly the given row under it.
    /// On failure nothing changes.
    #[verifier::external_body]
    pub(crate) fn insert_note(&mut self, row: &NoteRow) -> (r: Result<i64, String>)
        ensures
            r matches Ok(id) ==> 1 <= id && !notes_of(*old(self)).dom().contains(id as int),
            r matches Ok(id) ==> (forall|k: int|
                notes_of(*old(self)).dom().contains(k) ==> k < id),
            r matches Ok(id) ==> notes_of(*final(self)) == notes_of(*old(self)).insert(
                id as int,
                note_with_id(*row, id),
            ),
            r is Err ==> notes_of(*final(self)) == notes_of(*old(self)),
            states_of(*final(self)) == states_of(*old(self)),
            versions_of(*final(self)) == versions_of(*old(self)),
    {
        let p: &[&dyn rusqlite::ToSql] = &[&row.title, &row.content, &row.created_at,
            &row.updated_at, &row.priority, &row.labels_json, &row.deadline,
            &row.reminder_minutes, &row.done, &row.state_id, &row.order];
        let sql = "INSERT INTO notes (title, content, created_at, updated_at, priority, labels, deadline, reminder_minutes, done, state_id, \"order\") VALUES (?, ?, ?, ?, ?, ?, ?, ?, ?, ?, ?)";
        match self.conn.execute(sql, p) {
            Ok(_) => Ok(self.conn.last_insert_rowid()),
            Err(e) => Err(e.to_string()),
        }
    }

    /// Relies on rusqlite's `Connection::query_row`: reads the note row with
    /// the given id, or reports that none exists.
    #[verifier::external_body]
    pub(crate) fn select_note(&self, id: i64) -> (r: Result<Option<NoteRow>, String>)
        ensures
            r matches Ok(Some(row)) ==> notes_of(*self).contains_pair(id as int, row),
            r matches Ok(Some(row)) ==> row.id == id,
            r matches Ok(None) ==> !notes_of(*self).dom().contains(id as int),
    {
        let sql = "SELECT id, title, content, created_at, updated_at, priority, labels, deadline, reminder_minutes, done, state_id, \"order\" FROM notes WHERE id = ?";
        self.conn.query_row(sql, [id], |w| Ok(note_row_build(w.get(0)?, w.get(1)?, w.get(2)?,
            w.get(3)?, w.get(4)?, w.get(5)?, w.get(6)?, w.get(7)?, w.get(8)?, w.get(9)?,
            w.get(10)?, w.get(11)?))).optional().map_err(|e| e.to_string())
    }

    /// Relies on rusqlite's `Statement::query_map`: reads every note row in
    /// retrieval order.
    #[verifier::external_body]
    pub(crate) fn select_all_notes(&self) -> (r: Result<Vec<NoteRow>, String>)
        ensures
            r matches Ok(v) ==> note_rows_sound(v@, notes_of(*self)),
            r matches Ok(v) ==> note_rows_complete(v@, notes_of(*self)),
            r matches Ok(v) ==> note_rows_distinct(v@),
            r matches Ok(v) ==> note_rows_sorted(v@),
    {
        let sql = "SELECT id, title, content, created_at, updated_at, priority, labels, deadline, reminder_minutes, done, state_id, \"order\" FROM notes ORDER BY \"order\" ASC, updated_at DESC";
        let r = self.conn.prepare(sql).and_then(|mut stmt| {
            stmt.query_map([], |w| Ok(note_row_build(w.get(0)?, w.get(1)?, w.get(2)?,
            w.get(3)?, w.get(4)?, w.get(5)?, w.get(6)?, w.get(7)?, w.get(8)?, w.get(9)?,
            w.get(10)?, w.get(11)?)))?.collect()
        });
        r.map_err(|e| e.to_string())
    }

    /// Relies on rusqlite's `Statement::query_map`: reads one page of note
    /// rows in retrieval order. A negative limit means no limit.
    #[verifier::external_body]
    pub(crate) fn select_notes_page(&self, limit: i64, offset: i64) -> (r: Result<
        Vec<NoteRow>,
        String,
    >)
        ensures
            r matches Ok(v) ==> note_rows_sound(v@, notes_of(*self)),
            r matches Ok(v) ==> note_rows_distinct(v@),
            r matches Ok(v) ==> note_rows_sorted(v@),
            r matches Ok(v) ==> (limit >= 0 ==> v@.len() <= limit),
            r matches Ok(v) ==> (offset <= 0 ==> ((limit >= 0 && v@.len() == limit)
                || note_rows_complete(v@, notes_of(*self)))),
    {
        let sql = "SELECT id, title, content, created_at, updated_at, priority, labels, deadline, reminder_minutes, done, state_id, \"order\" FROM notes ORDER BY \"order\" ASC, updated_at DESC LIMIT ? OFFSET ?";
        self.conn.prepare(sql).and_then(|mut stmt| {
            stmt.query_map([limit, offset], |w| Ok(note_row_build(w.get(0)?, w.get(1)?,
            w.get(2)?, w.get(3)?, w.get(4)?, w.get(5)?, w.get(6)?, w.get(7)?, w.get(8)?,
            w.get(9)?, w.get(10)?, w.get(11)?)))?.collect()
        }).map_err(|e| e.to_string())
    }

    /// Relies on rusqlite's `Statement::query_map`: the substring search. It
    /// returns stored note rows only, in retrieval order, at most `limit` of
    /// them when `limit` is not negative; with a wildcard-free pattern every
    /// returned row holds the sought text in its title or content, compared
    /// with ASCII case folding as the store's LIKE operator does, and — the
    /// offset being zero — every stored row holding it is returned unless
    /// the page is full.
    #[verifier::external_body]
    pub(crate) fn like_search(&self, pattern: &str, limit: i64, offset: i64) -> (r: Result<
        Vec<NoteRow>,
        String,
    >)
        ensures
            r matches Ok(v) ==> note_rows_sound(v@, notes_of(*self)),
            r matches Ok(v) ==> note_rows_distinct(v@),
            r matches Ok(v) ==> note_rows_sorted(v@),
            r matches Ok(v) ==> (limit >= 0 ==> v@.len() <= limit),
            r matches Ok(v) ==> (forall|i: int|
                0 <= i < v@.len() ==> like_row_matches(pattern@, #[trigger] v@[i])),
            r matches Ok(v) ==> (offset <= 0 && plain_pattern(pattern@) ==> ((limit >= 0
                && v@.len() == limit) || (forall|id: i64|
                notes_of(*self).dom().contains(id as int) && like_hit(
                    pattern@,
                    #[trigger] notes_of(*self)[id as int],
                ) ==> exists|i: int| 0 <= i < v@.len() && v@[i].id == id))),
    {
        let sql = "SELECT id, title, content, created_at, updated_at, priority, labels, deadline, reminder_minutes, done, state_id, \"order\" FROM notes WHERE title LIKE ?1 COLLATE NOCASE OR content LIKE ?1 COLLATE NOCASE ORDER BY \"order\" ASC, updated_at DESC LIMIT ?2 OFFSET ?3";
        let p: &[&dyn rusqlite::ToSql] = &[&pattern, &limit, &offset];
        let r = self.conn.prepare(sql).and_then(|mut stmt| {
            stmt.query_map(p, |w| Ok(note_row_build(w.get(0)?, w.get(1)?, w.get(2)?,
            w.get(3)?, w.get(4)?, w.get(5)?, w.get(6)?, w.get(7)?, w.get(8)?, w.get(9)?,
            w.get(10)?, w.get(11)?)))?.collect()
        });
        r.map_err(|e| e.to_string())
    }

    /// Relies on rusqlite's `Statement::query_map` over the full-text index:
    /// the engine's ranked page for the expression — `fts_page` names it —
    /// made of stored note rows only, at most `limit` of them when `limit`
    /// is not negative. A malformed match expression is reported as an
    /// error.
    #[verifier::external_body]
    pub(crate) fn fts_search(&self, expr: &str, limit: i64, offset: i64) -> (r: Result<
        Vec<NoteRow>,
        String,
    >)
        ensures
            r matches Ok(v) ==> v@ == fts_page(expr@, notes_of(*self), limit as int, offset as int),
            r matches Ok(v) ==> note_rows_sound(v@, notes_of(*self)),
            r matches Ok(v) ==> note_rows_distinct(v@),
            r matches Ok(v) ==> (limit >= 0 ==> v@.len() <= limit),
    {
        let sql = "SELECT n.id, n.title, n.content, n.created_at, n.updated_at, n.priority, n.labels, n.deadline, n.reminder_minutes, n.done, n.state_id, n.\"order\" FROM notes_fts fts JOIN notes n ON fts.rowid = n.id WHERE notes_fts MATCH ?1 ORDER BY rank LIMIT ?2 OFFSET ?3";
        let p: &[&dyn rusqlite::ToSql] = &[&expr, &limit, &offset];
        let r = self.conn.prepare(sql).and_then(|mut stmt| {
            stmt.query_map(p, |w| Ok(note_row_build(w.get(0)?, w.get(1)?, w.get(2)?,
            w.get(3)?, w.get(4)?, w.get(5)?, w.get(6)?, w.get(7)?, w.get(8)?, w.get(9)?,
            w.get(10)?, w.get(11)?)))?.collect()
        });
        r.map_err(|e| e.to_string())
    }

    /// Relies on rusqlite's `Connection::execute`: writes every mutable
    /// column of the note row with the given id. The count says whether the
    /// row existed; on failure nothing changes.
    #[verifier::external_body]
    pub(crate) fn replace_note(&mut self, id: i64, row: &NoteRow) -> (r: Result<usize, String>)
        ensures
            r matches Ok(n) ==> n <= 1 && (n == 1 <==> notes_of(*old(self)).dom().contains(
                id as int,
            )),
            r matches Ok(n) ==> notes_of(*final(self)) == (if notes_of(*old(self)).dom().contains(
                id as int,
            ) {
                notes_of(*old(self)).insert(id as int, note_with_id(*row, id))
            } else {
                notes_of(*old(self))
            }),
            r is Err ==> notes_of(*final(self)) == notes_of(*old(self)),
            states_of(*final(self)) == states_of(*old(self)),
            versions_of(*final(self)) == versions_of(*old(self)),
    {
        let sql = "UPDATE notes SET title = ?, content = ?, created_at = ?, updated_at = ?, priority = ?, labels = ?, deadline = ?, reminder_minutes = ?, done = ?, state_id = ?, \"order\" = ? WHERE id = ?";
        let p: &[&dyn rusqlite::ToSql] = &[&row.title, &row.content, &row.created_at,
            &row.updated_at, &row.priority, &row.labels_json, &row.deadline,
            &row.reminder_minutes, &row.done, &row.state_id, &row.order, &id];
        self.conn.execute(sql, p).map_err(|e| e.to_string())
    }

    /// Relies on rusqlite's `Connection::execute`: removes the note row with
    /// the given id (its full-text shadow entry goes with it, by trigger).
    /// The count says whether the row existed; on failure nothing changes.
    #[verifier::external_body]
    pub(crate) fn delete_note_row(&mut self, id: i64) -> (r: Result<usize, String>)
        ensures
            r matches Ok(n) ==> n <= 1 && (n == 1 <==> notes_of(*old(self)).dom().contains(
                id as int,
            )),
            r matches Ok(n) ==> notes_of(*final(self)) == notes_of(*old(self)).remove(id as int),
            r is Err ==> notes_of(*final(self)) == notes_of(*old(self)),
            states_of(*final(self)) == states_of(*old(self)),
            versions_of(*final(self)) == versions_of(*old(self)),
    {
        self.conn.execute("DELETE FROM notes WHERE id = ?", [id]).map_err(|e| e.to_string())
    }

    /// Relies on rusqlite's `Connection::execute`: sets the done flag and the
    /// update time of one note. The count says whether the row existed; on
    /// failure nothing changes.
    #[verifier::external_body]
    pub(crate) fn set_note_done(&mut self, id: i64, done: i64, now: i64) -> (r: Result<
        usize,
        String,
    >)
        ensures
            r matches Ok(n) ==> n <= 1 && (n == 1 <==> notes_of(*old(self)).dom().contains(
                id as int,
            )),
            r matches Ok(n) ==> notes_of(*final(self)) == (if notes_of(*old(self)).dom().contains(
                id as int,
            ) {
                notes_of(*old(self)).insert(
                    id as int,
                    note_with_done(notes_of(*old(self))[id as int], done, now),
                )
            } else {
                notes_of(*old(self))
            }),
            r is Err ==> notes_of(*final(self)) == notes_of(*old(self)),
            states_of(*final(self)) == states_of(*old(self)),
            versions_of(*final(self)) == versions_of(*old(self)),
    {
        let p: &[&dyn rusqlite::ToSql] = &[&done, &now, &id];
        self.conn.execute("UPDATE notes SET done = ?, updated_at = ? WHERE id = ?", p).map_err(
            |e| e.to_string(),
        )
    }

    /// Relies on rusqlite's `Connection::execute`: sets the priority and the
    /// update time of one note, as `set_note_done` does for the done flag.
    #[verifier::external_body]
    pub(crate) fn set_note_priority(&mut self, id: i64, priority: i32, now: i64) -> (r: Result<
        usize,
        String,
    >)
        ensures
            r matches Ok(n) ==> n <= 1 && (n == 1 <==> notes_of(*old(self)).dom().contains(
                id as int,
            )),
            r matches Ok(n) ==> notes_of(*final(self)) == (if notes_of(*old(self)).dom().contains(
                id as int,
            ) {
                notes_of(*old(self)).insert(
                    id as int,
                    note_with_priority(notes_of(*old(self))[id as int], priority, now),
                )
            } else {
                notes_of(*old(self))
            }),
            r is Err ==> notes_of(*final(self)) == notes_of(*old(self)),
            states_of(*final(self)) == states_of(*old(self)),
            versions_of(*final(self)) == versions_of(*old(self)),
    {
        let p: &[&dyn rusqlite::ToSql] = &[&priority, &now, &id];
        self.conn.execute("UPDATE notes SET priority = ?, updated_at = ? WHERE id = ?", p).map_err(
            |e| e.to_string(),
        )
    }

    /// Relies on rusqlite's `Connection::execute`: assigns one note to a
    /// state and stamps the update time, as `set_note_done` does. Assigning
    /// a state the store does not hold fails the foreign-key check and
    /// changes nothing.
    #[verifier::external_body]
    pub(crate) fn set_note_state(&mut self, id: i64, state_id: i64, now: i64) -> (r: Result<
        usize,
        String,
    >)
        ensures
            r matches Ok(n) ==> n <= 1 && (n == 1 <==> notes_of(*old(self)).dom().contains(
                id as int,
            )),
            r matches Ok(n) ==> notes_of(*final(self)) == (if notes_of(*old(self)).dom().contains(
                id as int,
            ) {
                notes_of(*old(self)).insert(
                    id as int,
                    note_with_state(notes_of(*old(self))[id as int], state_id, now),
                )
            } else {
                notes_of(*old(self))
            }),
            r is Err ==> notes_of(*final(self)) == notes_of(*old(self)),
            states_of(*final(self)) == states_of(*old(self)),
            versions_of(*final(self)) == versions_of(*old(self)),
    {
        let p: &[&dyn rusqlite::ToSql] = &[&state_id, &now, &id];
        self.conn.execute("UPDATE notes SET state_id = ?, updated_at = ? WHERE id = ?", p).map_err(
            |e| e.to_string(),
        )
    }

    /// Relies on rusqlite's `Connection::execute`: sets the manual order key
    /// and the update time of one note, as `set_note_done` does.
    #[verifier::external_body]
    pub(crate) fn set_note_order(&mut self, id: i64, order: i32, now: i64) -> (r: Result<
        usize,
        String,
    >)
        ensures
            r matches Ok(n) ==> n <= 1 && (n == 1 <==> notes_of(*old(self)).dom().contains(
                id as int,
            )),
            r matches Ok(n) ==> notes_of(*final(self)) == (if notes_of(*old(self)).dom().contains(
                id as int,
            ) {
                notes_of(*old(self)).insert(
                    id as int,
                    note_with_order(notes_of(*old(self))[id as int], order, now),
                )
            } else {
                notes_of(*old(self))
            }),
            r is Err ==> notes_of(*final(self)) == notes_of(*old(self)),
            states_of(*final(self)) == states_of(*old(self)),
            versions_of(*final(self)) == versions_of(*old(self)),
    {
        let p: &[&dyn rusqlite::ToSql] = &[&order, &now, &id];
        self.conn.execute("UPDATE notes SET \"order\" = ?, updated_at = ? WHERE id = ?", p)
            .map_err(|e| e.to_string())
    }

    /// Relies on rusqlite's `Statement::query_map`: reads every note row that
    /// has no assigned state.
    #[verifier::external_body]
    pub(crate) fn select_unassigned_notes(&self) -> (r: Result<Vec<NoteRow>, String>)
        ensures
            r matches Ok(v) ==> note_rows_sound(v@, notes_of(*self)),
            r matches Ok(v) ==> note_rows_distinct(v@),
            r matches Ok(v) ==> (forall|i: int| 0 <= i < v@.len() ==> (#[trigger] v@[i]).state_id
                is None),
            r matches Ok(v) ==> (forall|id: int| #[trigger] notes_of(*self).dom().contains(id)
                && notes_of(*self)[id].state_id is None ==> exists|i: int|
                0 <= i < v@.len() && v@[i].id == id),
    {
        let sql = "SELECT id, title, content, created_at, updated_at, priority, labels, deadline, reminder_minutes, done, state_id, \"order\" FROM notes WHERE state_id IS NULL";
        let r = self.conn.prepare(sql).and_then(|mut stmt| {
            stmt.query_map([], |w| Ok(note_row_build(w.get(0)?, w.get(1)?, w.get(2)?,
            w.get(3)?, w.get(4)?, w.get(5)?, w.get(6)?, w.get(7)?, w.get(8)?, w.get(9)?,
            w.get(10)?, w.get(11)?)))?.collect()
        });
        r.map_err(|e| e.to_string())
    }

    /// Relies on rusqlite's `Connection::execute` and `last_insert_rowid`:
    /// inserts one state row, as `insert_note` does for notes.
    #[verifier::external_body]
    pub(crate) fn insert_state(&mut self, row: &StateRow) -> (r: Result<i64, String>)
        ensures
            r matches Ok(id) ==> 1 <= id && !states_of(*old(self)).dom().contains(id as int),
            r matches Ok(id) ==> (forall|k: int|
                states_of(*old(self)).dom().contains(k) ==> k < id),
            r matches Ok(id) ==> states_of(*final(self)) == states_of(*old(self)).insert(
                id as int,
                state_with_id(*row, id),
            ),
            r is Err ==> states_of(*final(self)) == states_of(*old(self)),
            notes_of(*final(self)) == notes_of(*old(self)),
            versions_of(*final(self)) == versions_of(*old(self)),
    {
        let sql = "INSERT INTO states (name, position, color, created_at, updated_at) VALUES (?, ?, ?, ?, ?)";
        let p: &[&dyn rusqlite::ToSql] = &[&row.name, &row.position, &row.color, &row.created_at,
            &row.updated_at];
        match self.conn.execute(sql, p) {
            Ok(_) => Ok(self.conn.last_insert_rowid()),
            Err(e) => Err(e.to_string()),
        }
    }

    /// Relies on rusqlite's `Connection::query_row`: reads the state row
    /// with the given id, or reports that none exists.
    #[verifier::external_body]
    pub(crate) fn select_state(&self, id: i64) -> (r: Result<Option<StateRow>, String>)
        ensures
            r matches Ok(Some(row)) ==> states_of(*self).contains_pair(id as int, row),
            r matches Ok(Some(row)) ==> row.id == id,
            r matches Ok(None) ==> !states_of(*self).dom().contains(id as int),
    {
        let sql = "SELECT id, name, position, color, created_at, updated_at FROM states WHERE id = ?";
        self.conn.query_row(sql, [id], |w| Ok(state_row_build(w.get(0)?, w.get(1)?, w.get(2)?,
            w.get(3)?, w.get(4)?, w.get(5)?))).optional().map_err(|e| e.to_string())
    }

    /// Relies on rusqlite's `Statement::query_map`: reads every state row,
    /// ordered by position ascending.
    #[verifier::external_body]
    pub(crate) fn select_all_states(&self) -> (r: Result<Vec<StateRow>, String>)
        ensures
            r matches Ok(v) ==> state_rows_sound(v@, states_of(*self)),
            r matches Ok(v) ==> state_rows_complete(v@, states_of(*self)),
            r matches Ok(v) ==> state_rows_distinct(v@),
            r matches Ok(v) ==> state_rows_sorted(v@),
    {
        let sql = "SELECT id, name, position, color, created_at, updated_at FROM states ORDER BY position ASC";
        let r = self.conn.prepare(sql).and_then(|mut stmt| {
            stmt.query_map([], |w| Ok(state_row_build(w.get(0)?, w.get(1)?, w.get(2)?,
            w.get(3)?, w.get(4)?, w.get(5)?)))?.collect()
        });
        r.map_err(|e| e.to_string())
    }

    /// Relies on rusqlite's `Connection::query_row`: the id of some state
    /// with the given name, or that no state bears it.
    #[verifier::external_body]
    pub(crate) fn state_id_by_name(&self, name: &str) -> (r: Result<Option<i64>, String>)
        ensures
            r matches Ok(Some(id)) ==> states_of(*self).dom().contains(id as int) && states_of(
                *self,
            )[id as int].name@ == name@,
            r matches Ok(None) ==> (forall|id: int| #[trigger] states_of(*self).dom().contains(id)
                ==> states_of(*self)[id].name@ != name@),
    {
        self.conn.query_row("SELECT id FROM states WHERE name = ?", [name], |w| w.get(0))
            .optional().map_err(|e| e.to_string())
    }

    /// Relies on rusqlite's `Connection::execute`: writes every mutable
    /// column of the state row with the given id, as `replace_note` does.
    #[verifier::external_body]
    pub(crate) fn replace_state(&mut self, id: i64, row: &StateRow) -> (r: Result<usize, String>)
        ensures
            r matches Ok(n) ==> n <= 1 && (n == 1 <==> states_of(*old(self)).dom().contains(
                id as int,
            )),
            r matches Ok(n) ==> states_of(*final(self)) == (if states_of(*old(self)).dom().contains(
                id as int,
            ) {
                states_of(*old(self)).insert(id as int, state_with_id(*row, id))
            } else {
                states_of(*old(self))
            }),
            r is Err ==> states_of(*final(self)) == states_of(*old(self)),
            notes_of(*final(self)) == notes_of(*old(self)),
            versions_of(*final(self)) == versions_of(*old(self)),
    {
        let sql = "UPDATE states SET name = ?, position = ?, color = ?, created_at = ?, updated_at = ? WHERE id = ?";
        let p: &[&dyn rusqlite::ToSql] = &[&row.name, &row.position, &row.color, &row.created_at,
            &row.updated_at, &id];
        self.conn.execute(sql, p).map_err(|e| e.to_string())
    }

    /// Relies on rusqlite's `Connection::execute`: removes the state row with
    /// the given id. Notes that reference it are left untouched — the
    /// dangling reference is the documented consistency gap of this store.
    #[verifier::external_body]
    pub(crate) fn delete_state_row(&mut self, id: i64) -> (r: Result<usize, String>)
        ensures
            r matches Ok(n) ==> n <= 1 && (n == 1 <==> states_of(*old(self)).dom().contains(
                id as int,
            )),
            r matches Ok(n) ==> states_of(*final(self)) == states_of(*old(self)).remove(id as int),
            r is Err ==> states_of(*final(self)) == states_of(*old(self)),
            notes_of(*final(self)) == notes_of(*old(self)),
            versions_of(*final(self)) == versions_of(*old(self)),
    {
        self.conn.execute("DELETE FROM states WHERE id = ?", [id]).map_err(|e| e.to_string())
    }
    /// Relies on rusqlite's `Connection::execute`: seeds the three default
    /// kanban columns in one insert, with fresh distinct ids; on failure
    /// nothing changes; notes and the version log are untouched either way.
    #[verifier::external_body]
    pub(crate) fn seed_default_states(&mut self) -> (r: Result<(), String>)
        ensures
            versions_of(*final(self)) == versions_of(*old(self)),
            notes_of(*final(self)) == notes_of(*old(self)),
            r is Err ==> states_of(*final(self)) == states_of(*old(self)),
            r is Ok ==> exists|i1: int, i2: int, i3: int, r1: StateRow, r2: StateRow, r3: StateRow|
                #[trigger] seeded_states(
                    states_of(*old(self)),
                    states_of(*final(self)),
                    i1,
                    i2,
                    i3,
                    r1,
                    r2,
                    r3,
                ),
    {
        let sql = "INSERT INTO states (name, position, color) VALUES
         ('To Do', 0, '#75715E'),
         ('In Progress', 1, '#66D9EF'),
         ('Done', 2, '#A6E22E')";
        self.conn.execute(sql, []).map(|_| ()).map_err(|e| e.to_string())
    }

    /// Relies on rusqlite's `Statement::query_map`: reads the recorded
    /// migration versions in ascending order, each exactly once.
    #[verifier::external_body]
    pub(crate) fn select_versions(&self) -> (r: Result<Vec<i64>, String>)
        ensures
            r matches Ok(v) ==> (forall|i: int|
                0 <= i < v@.len() ==> versions_of(*self).contains(#[trigger] v@[i] as int)),
            r matches Ok(v) ==> (forall|x: int| #[trigger]
                versions_of(*self).contains(x) ==> exists|i: int|
                    0 <= i < v@.len() && v@[i] as int == x),
            r matches Ok(v) ==> (forall|i: int, j: int|
                0 <= i < j < v@.len() ==> #[trigger] v@[i] < #[trigger] v@[j]),
    {
        let sql = "SELECT version FROM schema_migrations ORDER BY version ASC";
        let r = self.conn.prepare(sql).and_then(|mut stmt| {
            stmt.query_map([], |w| w.get(0))?.collect()
        });
        r.map_err(|e| e.to_string())
    }
}

} // verus!
