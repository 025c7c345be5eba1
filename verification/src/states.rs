//! The state repository: CRUD over the kanban columns.

use vstd::prelude::*;

use crate::db::{
    notes_of, state_rows_complete, state_rows_distinct, state_rows_sound, state_rows_sorted,
    states_of, versions_of, Db, StateRow,
};
use crate::models::{
    CreateStateRequest, State, StateResponse, StatesListResponse, UpdateStateRequest,
};

verus! {

/// Equality of optional text fields, by content.
pub open spec fn opt_text_eq(a: Option<String>, b: Option<String>) -> bool {
    match (a, b) {
        (Some(x), Some(y)) => x@ == y@,
        (None, None) => true,
        _ => false,
    }
}

/// The state a caller sees reflects the stored row.
pub open spec fn state_matches_row(st: State, row: StateRow) -> bool {
    &&& st.id == Some(row.id)
    &&& st.name@ == row.name@
    &&& st.position == row.position
    &&& opt_text_eq(st.color, row.color)
    &&& st.created_at == Some(row.created_at)
    &&& st.updated_at == Some(row.updated_at)
}

/// Turn a stored row into the state a caller sees.
pub fn state_from_row(row: StateRow) -> (st: State)
    ensures
        state_matches_row(st, row),
{
    State {
        id: Some(row.id),
        name: row.name,
        position: row.position,
        color: row.color,
        created_at: Some(row.created_at),
        updated_at: Some(row.updated_at),
    }
}

/// The row that creating a state stores: the requested fields, both
/// timestamps stamped to the same moment.
pub open spec fn created_state_row_ok(
    row: StateRow,
    req: CreateStateRequest,
    id: i64,
    now: i64,
) -> bool {
    &&& row.id == id
    &&& row.name@ == req.name@
    &&& row.position == req.position
    &&& opt_text_eq(row.color, req.color)
    &&& row.created_at == now
    &&& row.updated_at == now
}

/// A successful creation of a state, as `created_note_ok` for notes.
pub open spec fn created_state_ok(db0: Db, db1: Db, req: CreateStateRequest, st: State) -> bool {
    exists|id: i64, now: i64, row: StateRow|
        {
            &&& #[trigger] created_state_row_ok(row, req, id, now)
            &&& 1 <= id
            &&& !states_of(db0).dom().contains(id as int)
            &&& (forall|k: int| states_of(db0).dom().contains(k) ==> k < id)
            &&& states_of(db1) == states_of(db0).insert(id as int, row)
            &&& state_matches_row(st, row)
        }
}

/// Create a kanban state and return the stored row.
pub fn create_state(db: &mut Db, request: CreateStateRequest) -> (r: Result<StateResponse, String>)
    ensures
        notes_of(*final(db)) == notes_of(*old(db)),
        versions_of(*final(db)) == versions_of(*old(db)),
        r is Err ==> states_of(*final(db)) == states_of(*old(db)),
        r matches Ok(resp) ==> resp.success && resp.error is None && resp.data is Some,
        r matches Ok(resp) ==> created_state_ok(*old(db), *final(db), request, resp.data->0),
{
    let ghost req = request;
    let now = db.now_epoch();
    let row = StateRow {
        id: 0,
        name: request.name,
        position: request.position,
        color: request.color,
        created_at: now,
        updated_at: now,
    };
    let id = match db.insert_state(&row) {
        Ok(id) => id,
        Err(e) => {
            return Err(e);
        },
    };
    let stored = StateRow { id, ..row };
    proof {
        assert(created_state_row_ok(crate::db::state_with_id(row, id), req, id, now));
    }
    Ok(StateResponse { success: true, data: Some(state_from_row(stored)), error: None })
}

/// Every stored state, ordered by position ascending.
pub fn get_all_states(db: &Db) -> (r: Result<StatesListResponse, String>)
    ensures
        r matches Ok(resp) ==> resp.success && resp.error is None,
        r matches Ok(resp) ==> exists|rows: Seq<StateRow>|
            {
                &&& #[trigger] state_rows_sound(rows, states_of(*db))
                &&& state_rows_complete(rows, states_of(*db))
                &&& state_rows_distinct(rows)
                &&& state_rows_sorted(rows)
                &&& resp.data@.len() == rows.len()
                &&& forall|i: int|
                    0 <= i < rows.len() ==> state_matches_row(#[trigger] resp.data@[i], rows[i])
            },
{
    let rows = match db.select_all_states() {
        Ok(v) => v,
        Err(e) => {
            return Err(e);
        },
    };
    let ghost grows = rows@;
    let mut out: Vec<State> = Vec::new();
    let mut rest = rows;
    let mut i: usize = 0;
    let n = rest.len();
    while i < n
        invariant
            grows.len() == n,
            rest@ == grows.skip(i as int),
            i <= n,
            out@.len() == i,
            forall|j: int| 0 <= j < i ==> state_matches_row(#[trigger] out@[j], grows[j]),
        decreases n - i,
    {
        let row = rest.remove(0);
        proof {
            assert(row == grows[i as int]);
            assert(rest@ =~= grows.skip(i + 1));
        }
        out.push(state_from_row(row));
        i = i + 1;
    }
    Ok(StatesListResponse { success: true, data: out, error: None })
}

/// A state patch that names no field.
pub open spec fn state_patch_empty(req: UpdateStateRequest) -> bool {
    &&& req.name is None
    &&& req.position is None
    &&& req.color is None
}

/// The state row after a partial update: supplied fields replaced, others
/// kept, creation time untouched, update time restamped.
pub open spec fn patched_state_ok(
    old_row: StateRow,
    row: StateRow,
    req: UpdateStateRequest,
    now: i64,
) -> bool {
    &&& row.id == old_row.id
    &&& row.name@ == (match req.name {
        Some(n) => n@,
        None => old_row.name@,
    })
    &&& row.position == (match req.position {
        Some(p) => p,
        None => old_row.position,
    })
    &&& (match req.color {
        Some(c) => opt_text_eq(row.color, Some(c)),
        None => opt_text_eq(row.color, old_row.color),
    })
    &&& row.created_at == old_row.created_at
    &&& row.updated_at == now
}

/// A successful partial update of a state.
pub open spec fn updated_state_ok(db0: Db, db1: Db, req: UpdateStateRequest, st: State) -> bool {
    exists|now: i64, row: StateRow|
        {
            &&& #[trigger] patched_state_ok(states_of(db0)[req.id as int], row, req, now)
            &&& states_of(db1) == states_of(db0).insert(req.id as int, row)
            &&& state_matches_row(st, row)
        }
}

/// Partially update a state: only supplied fields change, the update time
/// is refreshed, an empty patch is rejected before the store is touched, and
/// a missing id is reported through the envelope.
pub fn update_state(db: &mut Db, request: UpdateStateRequest) -> (r: Result<StateResponse, String>)
    ensures
        notes_of(*final(db)) == notes_of(*old(db)),
        versions_of(*final(db)) == versions_of(*old(db)),
        state_patch_empty(request) ==> *final(db) == *old(db) && (r matches Err(e) && e@
            == "No fields to update"@),
        r is Err ==> states_of(*final(db)) == states_of(*old(db)),
        !state_patch_empty(request) ==> (r matches Ok(resp) ==> (resp.success <==> states_of(
            *old(db),
        ).dom().contains(request.id as int))),
        !state_patch_empty(request) ==> (r matches Ok(resp) ==> (resp.success ==> resp.error
            is None && (resp.data matches Some(st) && updated_state_ok(
            *old(db),
            *final(db),
            request,
            st,
        )))),
        r matches Ok(resp) ==> (!resp.success ==> states_of(*final(db)) == states_of(*old(db))
            && resp.data is None && (resp.error matches Some(e) && e@ == "State not found"@)),
{
    let ghost req = request;
    let empty = match (&request.name, &request.position, &request.color) {
        (None, None, None) => true,
        _ => false,
    };
    if empty {
        return Err("No fields to update".to_owned());
    }
    let old_row = match db.select_state(request.id) {
        Ok(Some(row)) => row,
        Ok(None) => {
            return Ok(
                StateResponse {
                    success: false,
                    data: None,
                    error: Some("State not found".to_owned()),
                },
            );
        },
        Err(e) => {
            return Err(e);
        },
    };
    let now = db.now_epoch();
    let row = StateRow {
        id: old_row.id,
        name: match request.name {
            Some(n) => n,
            None => old_row.name,
        },
        position: match request.position {
            Some(p) => p,
            None => old_row.position,
        },
        color: match request.color {
            Some(c) => Some(c),
            None => old_row.color,
        },
        created_at: old_row.created_at,
        updated_at: now,
    };
    match db.replace_state(request.id, &row) {
        Ok(_) => {
            let st = state_from_row(StateRow { id: request.id, ..row });
            proof {
                assert(patched_state_ok(
                    states_of(*old(db))[req.id as int],
                    crate::db::state_with_id(row, req.id),
                    req,
                    now,
                ));
            }
            Ok(StateResponse { success: true, data: Some(st), error: None })
        },
        Err(e) => Err(e),
    }
}

/// Delete a state, returning what was deleted; a missing id is reported
/// through the envelope. Notes referencing the state are not cascaded or
/// reassigned; under foreign-key enforcement the store refuses the delete
/// instead, and the refusal surfaces as an error.
pub fn delete_state(db: &mut Db, id: i64) -> (r: Result<StateResponse, String>)
    ensures
        notes_of(*final(db)) == notes_of(*old(db)),
        versions_of(*final(db)) == versions_of(*old(db)),
        r is Ok ==> states_of(*final(db)) == states_of(*old(db)).remove(id as int),
        r is Err ==> states_of(*final(db)) == states_of(*old(db)),
        r matches Ok(resp) ==> (resp.success <==> states_of(*old(db)).dom().contains(id as int)),
        r matches Ok(resp) ==> (resp.success ==> resp.error is None && (resp.data matches Some(st)
            && state_matches_row(st, states_of(*old(db))[id as int]))),
        r matches Ok(resp) ==> (!resp.success ==> resp.data is None && (resp.error matches Some(e)
            && e@ == "State not found"@)),
{
    let row = match db.select_state(id) {
        Ok(Some(row)) => row,
        Ok(None) => {
            proof {
                assert(states_of(*db) =~= states_of(*db).remove(id as int));
            }
            return Ok(
                StateResponse {
                    success: false,
                    data: None,
                    error: Some("State not found".to_owned()),
                },
            );
        },
        Err(e) => {
            return Err(e);
        },
    };
    match db.delete_state_row(id) {
        Ok(_) => Ok(StateResponse { success: true, data: Some(state_from_row(row)), error: None }),
        Err(e) => Err(e),
    }
}

} // verus!
