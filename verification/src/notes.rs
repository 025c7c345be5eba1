//! The note repository: lifecycle and read operations on notes.

use vstd::prelude::*;

use crate::db::{
    note_rows_complete, note_rows_distinct, note_rows_sound, note_rows_sorted, note_with_done,
    notes_of, states_of, versions_of, Db, NoteRow,
};
use crate::labels::{enc_labels, labels_from_json, labels_to_json};
use crate::models::{
    CreateNoteRequest, DeleteNoteRequest, Note, NoteResponse, NotesListResponse,
    UpdateNoteDoneRequest, UpdateNoteRequest,
};

verus! {

/// The note a caller sees reflects the stored row: every plain field copied,
/// the done flag read as "stored value is not zero", and the labels decoded
/// from the stored text — exactly, whenever that text is an encoded label
/// list, and to the empty list whenever it is not.
pub open spec fn note_matches_row(n: Note, row: NoteRow) -> bool {
    &&& n.id == Some(row.id)
    &&& n.title@ == row.title@
    &&& n.content@ == row.content@
    &&& n.created_at == Some(row.created_at)
    &&& n.updated_at == Some(row.updated_at)
    &&& n.priority == row.priority
    &&& (forall|ls: Seq<Seq<char>>|
        row.labels_json@ == #[trigger] enc_labels(ls) ==> n.labels.deep_view() == ls)
    &&& (row.labels_json@ == enc_labels(n.labels.deep_view()) || n.labels.deep_view()
        == Seq::<Seq<char>>::empty())
    &&& n.deadline == row.deadline
    &&& n.reminder_minutes == row.reminder_minutes
    &&& n.done == (row.done != 0)
    &&& n.state_id == row.state_id
    &&& n.order == row.order
}

/// Turn a stored row into the note a caller sees. Label text that is not a
/// well-formed encoded list decodes to the empty list; the read never fails.
pub fn note_from_row(row: NoteRow) -> (n: Note)
    ensures
        note_matches_row(n, row),
{
    let labels = labels_from_json(row.labels_json.as_str());
    proof {
        if labels@.len() == 0 {
            assert(labels.deep_view() =~= Seq::<Seq<char>>::empty());
        }
    }
    Note {
        id: Some(row.id),
        title: row.title,
        content: row.content,
        created_at: Some(row.created_at),
        updated_at: Some(row.updated_at),
        priority: row.priority,
        labels,
        deadline: row.deadline,
        reminder_minutes: row.reminder_minutes,
        done: row.done != 0,
        state_id: row.state_id,
        order: row.order,
    }
}

/// The label list a creation request carries, empty when absent.
pub open spec fn requested_labels(req: CreateNoteRequest) -> Seq<Seq<char>> {
    match req.labels {
        Some(l) => l.deep_view(),
        None => Seq::empty(),
    }
}

/// The row that creating a note stores: both timestamps stamped to the same
/// moment, each optional field defaulted, the labels encoded.
pub open spec fn created_row_ok(row: NoteRow, req: CreateNoteRequest, id: i64, now: i64) -> bool {
    &&& row.id == id
    &&& row.title@ == req.title@
    &&& row.content@ == req.content@
    &&& row.created_at == now
    &&& row.updated_at == now
    &&& row.priority == (match req.priority {
        Some(p) => p,
        None => 0,
    })
    &&& row.labels_json@ == enc_labels(requested_labels(req))
    &&& row.deadline == req.deadline
    &&& row.reminder_minutes == (match req.reminder_minutes {
        Some(m) => m,
        None => 0,
    })
    &&& row.done == (match req.done {
        Some(true) => 1int,
        _ => 0int,
    })
    &&& row.state_id == req.state_id
    &&& row.order == (match req.order {
        Some(o) => o,
        None => 0,
    })
}

/// A successful creation: some fresh positive id was assigned, the store
/// gained exactly the requested row, and the response carries that row back.
pub open spec fn created_note_ok(db0: Db, db1: Db, req: CreateNoteRequest, n: Note) -> bool {
    exists|id: i64, now: i64, row: NoteRow|
        {
            &&& #[trigger] created_row_ok(row, req, id, now)
            &&& 1 <= id
            &&& !notes_of(db0).dom().contains(id as int)
            &&& (forall|k: int| notes_of(db0).dom().contains(k) ==> k < id)
            &&& notes_of(db1) == notes_of(db0).insert(id as int, row)
            &&& note_matches_row(n, row)
        }
}

/// Create a note: serialize the labels, stamp both timestamps to the current
/// time, insert, and return the stored note. Immediately after creation the
/// note's update time equals its creation time.
pub fn create_note(db: &mut Db, request: CreateNoteRequest) -> (r: Result<NoteResponse, String>)
    ensures
        states_of(*final(db)) == states_of(*old(db)),
        versions_of(*final(db)) == versions_of(*old(db)),
        r is Err ==> notes_of(*final(db)) == notes_of(*old(db)),
        r matches Ok(resp) ==> resp.success && resp.error is None && resp.data is Some,
        r matches Ok(resp) ==> created_note_ok(*old(db), *final(db), request, resp.data->0),
{
    let ghost req = request;
    let labels = match request.labels {
        Some(l) => l,
        None => Vec::new(),
    };
    let labels_json = labels_to_json(&labels);
    proof {
        assert(labels_json@ == enc_labels(requested_labels(req)));
    }
    let now = db.now_epoch();
    let row = NoteRow {
        id: 0,
        title: request.title,
        content: request.content,
        created_at: now,
        updated_at: now,
        priority: match request.priority {
            Some(p) => p,
            None => 0,
        },
        labels_json,
        deadline: request.deadline,
        reminder_minutes: match request.reminder_minutes {
            Some(m) => m,
            None => 0,
        },
        done: match request.done {
            Some(true) => 1,
            _ => 0,
        },
        state_id: request.state_id,
        order: match request.order {
            Some(o) => o,
            None => 0,
        },
    };
    let id = match db.insert_note(&row) {
        Ok(id) => id,
        Err(e) => {
            return Err(e);
        },
    };
    let stored = NoteRow { id, ..row };
    let n = note_from_row(stored);
    proof {
        assert(created_row_ok(crate::db::note_with_id(row, id), req, id, now));
    }
    Ok(NoteResponse { success: true, data: Some(n), error: None })
}

/// Read one note by id. A missing note is reported through the envelope, as
/// "not found", never as an error.
pub fn get_note(db: &Db, id: i64) -> (r: Result<NoteResponse, String>)
    ensures
        r matches Ok(resp) ==> (resp.success <==> notes_of(*db).dom().contains(id as int)),
        r matches Ok(resp) ==> (resp.success ==> resp.error is None && (resp.data matches Some(n)
            && note_matches_row(n, notes_of(*db)[id as int]))),
        r matches Ok(resp) ==> (!resp.success ==> resp.data is None && (resp.error matches Some(e)
            && e@ == "Note not found"@)),
{
    match db.select_note(id) {
        Ok(Some(row)) => Ok(
            NoteResponse { success: true, data: Some(note_from_row(row)), error: None },
        ),
        Ok(None) => Ok(
            NoteResponse { success: false, data: None, error: Some("Note not found".to_owned()) },
        ),
        Err(e) => Err(e),
    }
}

/// Every stored note, in retrieval order: caller-assigned order ascending,
/// recency descending; each row decoded as `note_from_row` does.
pub fn get_all_notes(db: &Db) -> (r: Result<NotesListResponse, String>)
    ensures
        r matches Ok(resp) ==> resp.success && resp.error is None,
        r matches Ok(resp) ==> exists|rows: Seq<NoteRow>|
            {
                &&& #[trigger] note_rows_sound(rows, notes_of(*db))
                &&& note_rows_complete(rows, notes_of(*db))
                &&& note_rows_distinct(rows)
                &&& note_rows_sorted(rows)
                &&& resp.data@.len() == rows.len()
                &&& forall|i: int|
                    0 <= i < rows.len() ==> note_matches_row(#[trigger] resp.data@[i], rows[i])
            },
{
    let rows = match db.select_all_notes() {
        Ok(v) => v,
        Err(e) => {
            return Err(e);
        },
    };
    let ghost grows = rows@;
    let mut out: Vec<Note> = Vec::new();
    let mut rest = rows;
    let mut i: usize = 0;
    let n = rest.len();
    while i < n
        invariant
            grows.len() == n,
            rest@ == grows.skip(i as int),
            i <= n,
            out@.len() == i,
            forall|j: int| 0 <= j < i ==> note_matches_row(#[trigger] out@[j], grows[j]),
        decreases n - i,
    {
        let row = rest.remove(0);
        proof {
            assert(row == grows[i as int]);
            assert(rest@ =~= grows.skip(i + 1));
        }
        out.push(note_from_row(row));
        i = i + 1;
    }
    Ok(NotesListResponse { success: true, data: out, error: None })
}

/// The stored integer for a done flag.
pub open spec fn done_flag(b: bool) -> i64 {
    if b {
        1
    } else {
        0
    }
}

/// Decode a batch of stored rows into caller-facing notes, in order.
pub(crate) fn rows_to_notes(rows: Vec<NoteRow>) -> (out: Vec<Note>)
    ensures
        out@.len() == rows@.len(),
        forall|i: int| 0 <= i < rows@.len() ==> note_matches_row(#[trigger] out@[i], rows@[i]),
{
    let ghost grows = rows@;
    let mut out: Vec<Note> = Vec::new();
    let mut rest = rows;
    let mut i: usize = 0;
    let n = rest.len();
    while i < n
        invariant
            grows.len() == n,
            rest@ == grows.skip(i as int),
            i <= n,
            out@.len() == i,
            forall|j: int| 0 <= j < i ==> note_matches_row(#[trigger] out@[j], grows[j]),
        decreases n - i,
    {
        let row = rest.remove(0);
        proof {
            assert(row == grows[i as int]);
            assert(rest@ =~= grows.skip(i + 1));
        }
        out.push(note_from_row(row));
        i = i + 1;
    }
    out
}

/// A patch that names no field at all.
pub open spec fn note_patch_empty(req: UpdateNoteRequest) -> bool {
    &&& req.title is None
    &&& req.content is None
    &&& req.priority is None
    &&& req.labels is None
    &&& req.deadline is None
    &&& req.reminder_minutes is None
    &&& req.done is None
    &&& req.state_id is None
    &&& req.order is None
}

/// The row after a partial update: each supplied field replaced, every other
/// kept, the creation time untouched, the update time restamped.
pub open spec fn patched_row_ok(
    old_row: NoteRow,
    row: NoteRow,
    req: UpdateNoteRequest,
    now: i64,
) -> bool {
    &&& row.id == old_row.id
    &&& row.title@ == (match req.title {
        Some(t) => t@,
        None => old_row.title@,
    })
    &&& row.content@ == (match req.content {
        Some(c) => c@,
        None => old_row.content@,
    })
    &&& row.created_at == old_row.created_at
    &&& row.updated_at == now
    &&& row.priority == (match req.priority {
        Some(p) => p,
        None => old_row.priority,
    })
    &&& row.labels_json@ == (match req.labels {
        Some(l) => enc_labels(l.deep_view()),
        None => old_row.labels_json@,
    })
    &&& row.deadline == (match req.deadline {
        Some(d) => Some(d),
        None => old_row.deadline,
    })
    &&& row.reminder_minutes == (match req.reminder_minutes {
        Some(m) => m,
        None => old_row.reminder_minutes,
    })
    &&& row.done == (match req.done {
        Some(true) => 1int,
        Some(false) => 0int,
        None => old_row.done as int,
    })
    &&& row.state_id == (match req.state_id {
        Some(s) => Some(s),
        None => old_row.state_id,
    })
    &&& row.order == (match req.order {
        Some(o) => o,
        None => old_row.order,
    })
}

/// A successful partial update: the store holds the patched row under the
/// same id and the response carries it back.
pub open spec fn updated_note_ok(db0: Db, db1: Db, req: UpdateNoteRequest, n: Note) -> bool {
    exists|now: i64, row: NoteRow|
        {
            &&& #[trigger] patched_row_ok(notes_of(db0)[req.id as int], row, req, now)
            &&& notes_of(db1) == notes_of(db0).insert(req.id as int, row)
            &&& note_matches_row(n, row)
        }
}

/// Partially update a note: only the supplied fields change, and the update
/// time is refreshed. An empty patch is rejected before the store is
/// touched; a missing id is reported through the envelope.
pub fn update_note(db: &mut Db, request: UpdateNoteRequest) -> (r: Result<NoteResponse, String>)
    ensures
        states_of(*final(db)) == states_of(*old(db)),
        versions_of(*final(db)) == versions_of(*old(db)),
        note_patch_empty(request) ==> *final(db) == *old(db) && (r matches Err(e) && e@
            == "No fields to update"@),
        r is Err ==> notes_of(*final(db)) == notes_of(*old(db)),
        !note_patch_empty(request) ==> (r matches Ok(resp) ==> (resp.success <==> notes_of(
            *old(db),
        ).dom().contains(request.id as int))),
        !note_patch_empty(request) ==> (r matches Ok(resp) ==> (resp.success ==> resp.error is None
            && (resp.data matches Some(n) && updated_note_ok(*old(db), *final(db), request, n)))),
        r matches Ok(resp) ==> (!resp.success ==> notes_of(*final(db)) == notes_of(*old(db))
            && resp.data is None && (resp.error matches Some(e) && e@ == "Note not found"@)),
{
    let ghost req = request;
    let empty = match (
        &request.title,
        &request.content,
        &request.priority,
        &request.labels,
        &request.deadline,
    ) {
        (None, None, None, None, None) => match (
            &request.reminder_minutes,
            &request.done,
            &request.state_id,
            &request.order,
        ) {
            (None, None, None, None) => true,
            _ => false,
        },
        _ => false,
    };
    if empty {
        return Err("No fields to update".to_owned());
    }
    let old_row = match db.select_note(request.id) {
        Ok(Some(row)) => row,
        Ok(None) => {
            return Ok(
                NoteResponse {
                    success: false,
                    data: None,
                    error: Some("Note not found".to_owned()),
                },
            );
        },
        Err(e) => {
            return Err(e);
        },
    };
    let now = db.now_epoch();
    let labels_json = match request.labels {
        Some(l) => labels_to_json(&l),
        None => old_row.labels_json,
    };
    let row = NoteRow {
        id: old_row.id,
        title: match request.title {
            Some(t) => t,
            None => old_row.title,
        },
        content: match request.content {
            Some(c) => c,
            None => old_row.content,
        },
        created_at: old_row.created_at,
        updated_at: now,
        priority: match request.priority {
            Some(p) => p,
            None => old_row.priority,
        },
        labels_json,
        deadline: match request.deadline {
            Some(d) => Some(d),
            None => old_row.deadline,
        },
        reminder_minutes: match request.reminder_minutes {
            Some(m) => m,
            None => old_row.reminder_minutes,
        },
        done: match request.done {
            Some(true) => 1,
            Some(false) => 0,
            None => old_row.done,
        },
        state_id: match request.state_id {
            Some(s) => Some(s),
            None => old_row.state_id,
        },
        order: match request.order {
            Some(o) => o,
            None => old_row.order,
        },
    };
    match db.replace_note(request.id, &row) {
        Ok(_) => {
            let n = note_from_row(NoteRow { id: request.id, ..row });
            proof {
                assert(patched_row_ok(
                    notes_of(*old(db))[req.id as int],
                    crate::db::note_with_id(row, req.id),
                    req,
                    now,
                ));
            }
            Ok(NoteResponse { success: true, data: Some(n), error: None })
        },
        Err(e) => Err(e),
    }
}

/// Delete a note, returning what was deleted. The row and its search shadow
/// go together; deleting a missing note reports "not found".
pub fn delete_note(db: &mut Db, request: DeleteNoteRequest) -> (r: Result<NoteResponse, String>)
    ensures
        states_of(*final(db)) == states_of(*old(db)),
        versions_of(*final(db)) == versions_of(*old(db)),
        r is Ok ==> notes_of(*final(db)) == notes_of(*old(db)).remove(request.id as int),
        r is Err ==> notes_of(*final(db)) == notes_of(*old(db)),
        r matches Ok(resp) ==> (resp.success <==> notes_of(*old(db)).dom().contains(
            request.id as int,
        )),
        r matches Ok(resp) ==> (resp.success ==> resp.error is None && (resp.data matches Some(n)
            && note_matches_row(n, notes_of(*old(db))[request.id as int]))),
        r matches Ok(resp) ==> (!resp.success ==> resp.data is None && (resp.error matches Some(e)
            && e@ == "Note not found"@)),
{
    let row = match db.select_note(request.id) {
        Ok(Some(row)) => row,
        Ok(None) => {
            proof {
                assert(notes_of(*db) =~= notes_of(*db).remove(request.id as int));
            }
            return Ok(
                NoteResponse {
                    success: false,
                    data: None,
                    error: Some("Note not found".to_owned()),
                },
            );
        },
        Err(e) => {
            return Err(e);
        },
    };
    match db.delete_note_row(request.id) {
        Ok(_) => Ok(NoteResponse { success: true, data: Some(note_from_row(row)), error: None }),
        Err(e) => Err(e),
    }
}

/// Flip one note's done flag, refreshing its update time and leaving every
/// other field — the creation time included — as it was.
pub fn update_note_done(db: &mut Db, request: UpdateNoteDoneRequest) -> (r: Result<
    NoteResponse,
    String,
>)
    ensures
        states_of(*final(db)) == states_of(*old(db)),
        versions_of(*final(db)) == versions_of(*old(db)),
        r is Err ==> notes_of(*final(db)) == notes_of(*old(db)),
        r matches Ok(resp) ==> (resp.success <==> notes_of(*old(db)).dom().contains(
            request.id as int,
        )),
        r matches Ok(resp) ==> (resp.success ==> resp.error is None && (resp.data matches Some(n)
            && exists|now: i64|
            {
                let row = #[trigger] note_with_done(
                    notes_of(*old(db))[request.id as int],
                    done_flag(request.done),
                    now,
                );
                &&& notes_of(*final(db)) == notes_of(*old(db)).insert(request.id as int, row)
                &&& note_matches_row(n, row)
            })),
        r matches Ok(resp) ==> (!resp.success ==> notes_of(*final(db)) == notes_of(*old(db))
            && resp.data is None && (resp.error matches Some(e) && e@ == "Note not found"@)),
{
    let old_row = match db.select_note(request.id) {
        Ok(Some(row)) => row,
        Ok(None) => {
            return Ok(
                NoteResponse {
                    success: false,
                    data: None,
                    error: Some("Note not found".to_owned()),
                },
            );
        },
        Err(e) => {
            return Err(e);
        },
    };
    let now = db.now_epoch();
    let flag: i64 = if request.done {
        1
    } else {
        0
    };
    match db.set_note_done(request.id, flag, now) {
        Ok(_) => {
            let new_row = NoteRow { done: flag, updated_at: now, ..old_row };
            proof {
                assert(new_row == note_with_done(
                    notes_of(*old(db))[request.id as int],
                    done_flag(request.done),
                    now,
                ));
            }
            Ok(NoteResponse { success: true, data: Some(note_from_row(new_row)), error: None })
        },
        Err(e) => Err(e),
    }
}

/// A row set drawn soundly from the store holds nothing under an id the
/// store no longer has: a deleted note is gone from reads and searches
/// alike.
pub proof fn lemma_deleted_note_gone(db: Db, id: i64, rows: Seq<NoteRow>)
    requires
        !notes_of(db).dom().contains(id as int),
        note_rows_sound(rows, notes_of(db)),
    ensures
        forall|i: int| 0 <= i < rows.len() ==> (#[trigger] rows[i]).id != id,
{
    assert forall|i: int| 0 <= i < rows.len() implies (#[trigger] rows[i]).id != id by {
        assert(notes_of(db).contains_pair(rows[i].id as int, rows[i]));
    }
}

/// Immediately after creation, a note's update time equals its creation
/// time.
pub proof fn lemma_fresh_note_timestamps(db0: Db, db1: Db, req: CreateNoteRequest, n: Note)
    requires
        created_note_ok(db0, db1, req, n),
    ensures
        n.created_at is Some,
        n.created_at == n.updated_at,
{
    let (id, now, row) = choose|id: i64, now: i64, row: NoteRow|
        {
            &&& #[trigger] created_row_ok(row, req, id, now)
            &&& 1 <= id
            &&& !notes_of(db0).dom().contains(id as int)
            &&& (forall|k: int| notes_of(db0).dom().contains(k) ==> k < id)
            &&& notes_of(db1) == notes_of(db0).insert(id as int, row)
            &&& note_matches_row(n, row)
        };
    assert(row.created_at == now && row.updated_at == now);
}

/// A partial update never changes the stored creation time.
pub proof fn lemma_update_preserves_creation(db0: Db, db1: Db, req: UpdateNoteRequest, n: Note)
    requires
        updated_note_ok(db0, db1, req, n),
    ensures
        notes_of(db1)[req.id as int].created_at == notes_of(db0)[req.id as int].created_at,
{
    let (now, row) = choose|now: i64, row: NoteRow|
        {
            &&& #[trigger] patched_row_ok(notes_of(db0)[req.id as int], row, req, now)
            &&& notes_of(db1) == notes_of(db0).insert(req.id as int, row)
            &&& note_matches_row(n, row)
        };
    assert(row.created_at == notes_of(db0)[req.id as int].created_at);
}

} // verus!
