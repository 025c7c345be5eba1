//! The bulk operation executor: one mutation kind applied across a list of
//! note ids, per item, without letting one failure abort the rest. The batch
//! envelope always reports success; the per-item outcomes are counted, and
//! every failed item leaves one message in the error list.

use vstd::prelude::*;

use crate::chars::{
    append_chars, chars_string, contains_seq, has_substr, int_digits, lower_seq, push_int,
    str_chars, to_lower,
};
use crate::db::{
    note_with_done, note_with_order, note_with_priority, note_with_state, notes_of, states_of,
    versions_of, Db, NoteRow, StateRow,
};
use crate::labels::{enc_labels, labels_from_json};
use crate::models::{
    BulkDeleteRequest, BulkOperationResponse, BulkUpdateDoneRequest, BulkUpdateOrderRequest,
    BulkUpdatePriorityRequest, BulkUpdateStateRequest, NoteResponse,
};
use crate::notes::done_flag;

verus! {

/// How many entries of a sequence are set.
pub open spec fn count_true(s: Seq<bool>) -> nat
    decreases s.len(),
{
    if s.len() == 0 {
        0
    } else {
        (if s[0] {
            1nat
        } else {
            0nat
        }) + count_true(s.drop_first())
    }
}

/// Counting one more entry.
proof fn lemma_count_push(s: Seq<bool>, b: bool)
    ensures
        count_true(s.push(b)) == count_true(s) + (if b {
            1nat
        } else {
            0nat
        }),
    decreases s.len(),
{
    if s.len() == 0 {
        assert(s.push(b).drop_first() =~= Seq::<bool>::empty());
        assert(s.push(b)[0] == b);
        assert(count_true(s) == 0);
        assert(count_true(s.push(b).drop_first()) == 0);
    } else {
        assert(s.push(b).drop_first() =~= s.drop_first().push(b));
        lemma_count_push(s.drop_first(), b);
    }
}

/// A batch whose success count reaches its size failed nowhere: every
/// per-item outcome is a success.
pub proof fn lemma_all_succeeded(s: Seq<bool>)
    requires
        count_true(s) == s.len(),
    ensures
        forall|i: int| 0 <= i < s.len() ==> s[i],
    decreases s.len(),
{
    if s.len() > 0 {
        assert(count_true(s.drop_first()) <= s.drop_first().len()) by {
            lemma_count_le(s.drop_first());
        }
        lemma_all_succeeded(s.drop_first());
        assert forall|i: int| 0 <= i < s.len() implies s[i] by {
            if i > 0 {
                assert(s.drop_first()[i - 1] == s[i]);
            }
        }
    }
}

/// No sequence holds more set entries than entries.
proof fn lemma_count_le(s: Seq<bool>)
    ensures
        count_true(s) <= s.len(),
    decreases s.len(),
{
    if s.len() > 0 {
        lemma_count_le(s.drop_first());
    }
}

/// The batch envelope books every item exactly once: the counts add up to
/// the batch size, and the error list carries one entry per failed item.
pub open spec fn bulk_counts_ok(b: BulkOperationResponse, n: nat) -> bool {
    &&& b.success
    &&& b.error is None
    &&& b.successful_count + b.failed_count == n
    &&& (b.errors is None <==> b.failed_count == 0)
    &&& (match b.errors {
        Some(es) => es@.len() == b.failed_count,
        None => true,
    })
}

/// The per-item bookkeeping shared by the broadcast updates: one outcome
/// per requested id; the successes counted; a missing id fails; a success
/// means the note existed when the batch began and, the batch over, carries
/// the broadcast value; every failure leaves a message naming its id.
pub open spec fn bulk_priority_ok(
    db0: Db,
    db1: Db,
    req: BulkUpdatePriorityRequest,
    b: BulkOperationResponse,
    now: i64,
    outcome: Seq<bool>,
) -> bool {
    let ids = req.note_ids@;
    &&& outcome.len() == ids.len()
    &&& b.successful_count == count_true(outcome)
    &&& forall|i: int|
        0 <= i < ids.len() && !notes_of(db0).dom().contains(ids[i] as int) ==> !(
        #[trigger] outcome[i])
    &&& forall|i: int|
        0 <= i < ids.len() && #[trigger] outcome[i] ==> notes_of(db0).dom().contains(ids[i] as int)
            && notes_of(db1)[ids[i] as int] == note_with_priority(
            notes_of(db0)[ids[i] as int],
            req.priority,
            now,
        )
    &&& errors_name_failures(b, ids, outcome, "Failed to update note "@)
    &&& bulk_priority_model(db0, db1, req, now)
}

/// As `bulk_priority_ok`, for the done flag.
pub open spec fn bulk_done_ok(
    db0: Db,
    db1: Db,
    req: BulkUpdateDoneRequest,
    b: BulkOperationResponse,
    now: i64,
    outcome: Seq<bool>,
) -> bool {
    let ids = req.note_ids@;
    &&& outcome.len() == ids.len()
    &&& b.successful_count == count_true(outcome)
    &&& forall|i: int|
        0 <= i < ids.len() && !notes_of(db0).dom().contains(ids[i] as int) ==> !(
        #[trigger] outcome[i])
    &&& forall|i: int|
        0 <= i < ids.len() && #[trigger] outcome[i] ==> notes_of(db0).dom().contains(ids[i] as int)
            && notes_of(db1)[ids[i] as int] == note_with_done(
            notes_of(db0)[ids[i] as int],
            done_flag(req.done),
            now,
        )
    &&& errors_name_failures(b, ids, outcome, "Failed to update note "@)
    &&& bulk_done_model(db0, db1, req, now)
}

/// As `bulk_priority_ok`, for the state assignment.
pub open spec fn bulk_state_ok(
    db0: Db,
    db1: Db,
    req: BulkUpdateStateRequest,
    b: BulkOperationResponse,
    now: i64,
    outcome: Seq<bool>,
) -> bool {
    let ids = req.note_ids@;
    &&& outcome.len() == ids.len()
    &&& b.successful_count == count_true(outcome)
    &&& forall|i: int|
        0 <= i < ids.len() && !notes_of(db0).dom().contains(ids[i] as int) ==> !(
        #[trigger] outcome[i])
    &&& forall|i: int|
        0 <= i < ids.len() && #[trigger] outcome[i] ==> notes_of(db0).dom().contains(ids[i] as int)
            && notes_of(db1)[ids[i] as int] == note_with_state(
            notes_of(db0)[ids[i] as int],
            req.state_id,
            now,
        )
    &&& errors_name_failures(b, ids, outcome, "Failed to update note "@)
    &&& bulk_state_model(db0, db1, req, now)
}

/// As `bulk_priority_ok`, for the positional order values: a success means
/// the note ends up carrying the order value of some position that named
/// its id — its own position, when the id is listed once.
pub open spec fn bulk_order_ok(
    db0: Db,
    db1: Db,
    req: BulkUpdateOrderRequest,
    b: BulkOperationResponse,
    now: i64,
    outcome: Seq<bool>,
) -> bool {
    let ids = req.note_ids@;
    &&& outcome.len() == ids.len()
    &&& b.successful_count == count_true(outcome)
    &&& forall|i: int|
        0 <= i < ids.len() && !notes_of(db0).dom().contains(ids[i] as int) ==> !(
        #[trigger] outcome[i])
    &&& forall|i: int|
        0 <= i < ids.len() && #[trigger] outcome[i] ==> notes_of(db0).dom().contains(ids[i] as int)
            && exists|j: int|
            0 <= j < ids.len() && ids[j] == ids[i] && notes_of(db1)[ids[i] as int]
                == note_with_order(notes_of(db0)[ids[i] as int], order_of(req, j), now)
    &&& errors_name_failures(b, ids, outcome, "Failed to update note "@)
    &&& bulk_order_model(db0, db1, req, now)
}

/// The message recorded for an id no note bears.
pub open spec fn not_found_text(id: int) -> Seq<char> {
    "Note "@ + int_digits(id) + " not found"@
}

/// Whether a message is the one recorded when the store itself refused an
/// item: the operation's prefix, the id, and the store's own words.
pub open spec fn op_failed_text(t: Seq<char>, prefix: Seq<char>, id: int) -> bool {
    exists|e: Seq<char>| t == #[trigger] (prefix + int_digits(id) + ": "@ + e)
}

/// Every failed position left one message naming its id in the error list:
/// either the not-found message or the store's refusal under the
/// operation's prefix.
pub open spec fn errors_name_failures(
    b: BulkOperationResponse,
    ids: Seq<i64>,
    outcome: Seq<bool>,
    prefix: Seq<char>,
) -> bool {
    forall|i: int|
        0 <= i < ids.len() && !(#[trigger] outcome[i]) ==> (b.errors matches Some(es) && exists|k: int|
            0 <= k < es@.len() && (es@[k]@ == not_found_text(ids[i] as int) || op_failed_text(
                es@[k]@,
                prefix,
                ids[i] as int,
            )))
}

/// The per-item bookkeeping of a batch delete: one outcome per requested
/// id; the successes counted; a missing id fails; a success means the note
/// existed when the batch began and is gone when it ends; every failure
/// leaves a message naming its id.
pub open spec fn bulk_delete_ok(
    db0: Db,
    db1: Db,
    req: BulkDeleteRequest,
    b: BulkOperationResponse,
    outcome: Seq<bool>,
) -> bool {
    let ids = req.note_ids@;
    &&& outcome.len() == ids.len()
    &&& b.successful_count == count_true(outcome)
    &&& forall|i: int|
        0 <= i < ids.len() && !notes_of(db0).dom().contains(ids[i] as int) ==> !(
        #[trigger] outcome[i])
    &&& forall|i: int|
        0 <= i < ids.len() && #[trigger] outcome[i] ==> notes_of(db0).dom().contains(ids[i] as int)
            && !notes_of(db1).dom().contains(ids[i] as int)
    &&& errors_name_failures(b, ids, outcome, "Failed to delete note "@)
}

/// After a broadcast priority update: every stored row is its old self or
/// its old self restamped with the broadcast priority.
pub open spec fn bulk_priority_model(db0: Db, db1: Db, req: BulkUpdatePriorityRequest, now: i64) -> bool {
    forall|id: int| #[trigger]
        notes_of(db0).dom().contains(id) ==> notes_of(db1)[id] == notes_of(db0)[id] || notes_of(
            db1,
        )[id] == note_with_priority(notes_of(db0)[id], req.priority, now)
}

/// As `bulk_priority_model`, for the done flag.
pub open spec fn bulk_done_model(db0: Db, db1: Db, req: BulkUpdateDoneRequest, now: i64) -> bool {
    forall|id: int| #[trigger]
        notes_of(db0).dom().contains(id) ==> notes_of(db1)[id] == notes_of(db0)[id] || notes_of(
            db1,
        )[id] == note_with_done(notes_of(db0)[id], done_flag(req.done), now)
}

/// As `bulk_priority_model`, for the state assignment.
pub open spec fn bulk_state_model(db0: Db, db1: Db, req: BulkUpdateStateRequest, now: i64) -> bool {
    forall|id: int| #[trigger]
        notes_of(db0).dom().contains(id) ==> notes_of(db1)[id] == notes_of(db0)[id] || notes_of(
            db1,
        )[id] == note_with_state(notes_of(db0)[id], req.state_id, now)
}

/// After the positional order update: every stored row is its old self or
/// carries the order value of some position that named its id.
pub open spec fn bulk_order_model(db0: Db, db1: Db, req: BulkUpdateOrderRequest, now: i64) -> bool {
    forall|id: int| #[trigger]
        notes_of(db0).dom().contains(id) ==> notes_of(db1)[id] == notes_of(db0)[id] || exists|j: int|
            0 <= j < req.note_ids@.len() && req.note_ids@[j] == id && notes_of(db1)[id]
                == note_with_order(notes_of(db0)[id], order_of(req, j), now)
}

/// An id outside the first `i + 1` targeted positions is outside the first
/// `i` and differs from the id at position `i`.
proof fn lemma_untargeted(ids: Seq<i64>, i: int, id: int)
    requires
        0 <= i < ids.len(),
        !ids.take(i + 1).contains(id as i64),
    ensures
        !ids.take(i).contains(id as i64),
        id != ids[i] as int,
{
    assert(ids.take(i + 1)[i] == ids[i]);
    assert(ids.take(i + 1).contains(ids[i]));
    if id == ids[i] as int {
        assert(id as i64 == ids[i]);
    }
    if ids.take(i).contains(id as i64) {
        let j = choose|j: int| 0 <= j < i && ids.take(i)[j] == id as i64;
        assert(ids.take(i + 1)[j] == id as i64);
        assert(ids.take(i + 1).contains(id as i64));
    }
}

/// The message for an id no note bears.
fn not_found_note_message(id: i64) -> (r: String)
    ensures
        r@ == "Note "@ + int_digits(id as int) + " not found"@,
{
    let mut v = str_chars("Note ");
    push_int(&mut v, id);
    let tail = str_chars(" not found");
    append_chars(&mut v, &tail);
    chars_string(&v)
}

/// The message for an item the store itself refused.
fn op_failed_message(prefix: &str, id: i64, e: &String) -> (r: String)
    ensures
        r@ == prefix@ + int_digits(id as int) + ": "@ + e@,
{
    let mut v = str_chars(prefix);
    push_int(&mut v, id);
    let sep = str_chars(": ");
    append_chars(&mut v, &sep);
    let tail = str_chars(e.as_str());
    append_chars(&mut v, &tail);
    chars_string(&v)
}

/// Delete each listed note. An id the store does not hold counts as a
/// failure and leaves a message naming it; a success means the listed note
/// existed and is gone; rows not listed survive untouched, and no surviving
/// row changes.
pub fn bulk_delete_notes(db: &mut Db, request: BulkDeleteRequest) -> (r: Result<
    BulkOperationResponse,
    String,
>)
    ensures
        states_of(*final(db)) == states_of(*old(db)),
        versions_of(*final(db)) == versions_of(*old(db)),
        r is Ok,
        r matches Ok(b) ==> bulk_counts_ok(b, request.note_ids@.len()),
        r matches Ok(b) ==> exists|outcome: Seq<bool>| #[trigger] bulk_delete_ok(
            *old(db),
            *final(db),
            request,
            b,
            outcome,
        ),
        forall|id: int| #[trigger]
            notes_of(*final(db)).dom().contains(id) ==> notes_of(*old(db)).contains_pair(
                id,
                notes_of(*final(db))[id],
            ),
        forall|id: int| #[trigger]
            notes_of(*old(db)).dom().contains(id) && !request.note_ids@.contains(id as i64)
                ==> notes_of(*final(db)).dom().contains(id),
{
    let ids = request.note_ids;
    let mut successful: usize = 0;
    let mut failed: usize = 0;
    let mut errors: Vec<String> = Vec::new();
    let ghost mut outcome: Seq<bool> = Seq::empty();
    let mut i: usize = 0;
    let n = ids.len();
    while i < n
        invariant
            ids@.len() == n,
            ids@ == request.note_ids@,
            i <= n,
            successful + failed == i,
            outcome.len() == i,
            successful == count_true(outcome),
            errors@.len() == failed,
            forall|j: int|
                0 <= j < i && !notes_of(*old(db)).dom().contains(ids@[j] as int) ==> !(
                #[trigger] outcome[j]),
            forall|j: int|
                0 <= j < i && #[trigger] outcome[j] ==> notes_of(*old(db)).dom().contains(
                    ids@[j] as int,
                ) && !notes_of(*db).dom().contains(ids@[j] as int),
            forall|j: int|
                0 <= j < i && !(#[trigger] outcome[j]) ==> exists|k: int|
                    0 <= k < errors@.len() && (errors@[k]@ == not_found_text(ids@[j] as int)
                        || op_failed_text(errors@[k]@, "Failed to delete note "@, ids@[j] as int)),
            forall|id: int| #[trigger]
                notes_of(*db).dom().contains(id) ==> notes_of(*old(db)).contains_pair(
                    id,
                    notes_of(*db)[id],
                ),
            forall|id: int| #[trigger]
                notes_of(*old(db)).dom().contains(id) && !ids@.take(i as int).contains(id as i64)
                    ==> notes_of(*db).dom().contains(id),
            states_of(*db) == states_of(*old(db)),
            versions_of(*db) == versions_of(*old(db)),
        decreases n - i,
    {
        let id = ids[i];
        let ghost pre = outcome;
        let ghost pre_errors = errors@;
        match db.delete_note_row(id) {
            Ok(rows) => {
                if rows > 0 {
                    successful = successful + 1;
                    proof {
                        lemma_count_push(outcome, true);
                        outcome = outcome.push(true);
                    }
                } else {
                    failed = failed + 1;
                    errors.push(not_found_note_message(id));
                    proof {
                        lemma_count_push(outcome, false);
                        outcome = outcome.push(false);
                        assert(errors@[pre_errors.len() as int]@ == not_found_text(id as int));
                    }
                }
            },
            Err(e) => {
                failed = failed + 1;
                errors.push(op_failed_message("Failed to delete note ", id, &e));
                proof {
                    lemma_count_push(outcome, false);
                    outcome = outcome.push(false);
                    assert(op_failed_text(
                        errors@[pre_errors.len() as int]@,
                        "Failed to delete note "@,
                        id as int,
                    ));
                }
            },
        }
        proof {
            assert(ids@.take(i + 1) =~= ids@.take(i as int).push(ids@[i as int]));
            assert forall|id2: int|
                notes_of(*old(db)).dom().contains(id2) && !ids@.take(i + 1).contains(
                    id2 as i64,
                ) implies notes_of(*db).dom().contains(id2) by {
                lemma_untargeted(ids@, i as int, id2);
            }
            assert forall|j: int|
                0 <= j < i + 1 && !(#[trigger] outcome[j]) implies exists|k: int|
                0 <= k < errors@.len() && (errors@[k]@ == not_found_text(ids@[j] as int)
                    || op_failed_text(errors@[k]@, "Failed to delete note "@, ids@[j] as int)) by {
                if j < i {
                    assert(!pre[j]);
                    let k = choose|k: int|
                        0 <= k < pre_errors.len() && (pre_errors[k]@ == not_found_text(
                            ids@[j] as int,
                        ) || op_failed_text(pre_errors[k]@, "Failed to delete note "@, ids@[j] as int));
                    assert(errors@[k] == pre_errors[k]);
                }
            }
        }
        i = i + 1;
    }
    proof {
        assert(ids@.take(n as int) =~= ids@);
    }
    let ghost ge = errors@;
    let errs = if errors.is_empty() {
        None
    } else {
        Some(errors)
    };
    let b = BulkOperationResponse {
        success: true,
        successful_count: successful,
        failed_count: failed,
        errors: errs,
        error: None,
    };
    proof {
        if ge.len() > 0 {
            assert(!(b.errors is None));
            assert(b.errors->Some_0@ == ge);
        }
        assert forall|i2: int|
            0 <= i2 < request.note_ids@.len() && !(#[trigger] outcome[i2]) implies (b.errors
            matches Some(es) && exists|k: int|
            0 <= k < es@.len() && (es@[k]@ == not_found_text(request.note_ids@[i2] as int)
                || op_failed_text(
                es@[k]@,
                "Failed to delete note "@,
                request.note_ids@[i2] as int,
            ))) by {
            let k = choose|k: int|
                0 <= k < ge.len() && (ge[k]@ == not_found_text(request.note_ids@[i2] as int)
                    || op_failed_text(
                    ge[k]@,
                    "Failed to delete note "@,
                    request.note_ids@[i2] as int,
                ));
            assert(0 <= k < ge.len());
            assert(ge.len() > 0);
            assert(b.errors->Some_0@[k] == ge[k]);
        }
        assert(bulk_delete_ok(*old(db), *db, request, b, outcome));
    }
    Ok(b)
}

/// Set the priority of each listed note to one broadcast value, restamping
/// each touched note's update time. Ids the store does not hold count as
/// failures and leave messages naming them; a per-item success means that
/// note now carries the broadcast value; an untouched row is unchanged.
pub fn bulk_update_notes_priority(db: &mut Db, request: BulkUpdatePriorityRequest) -> (r: Result<
    BulkOperationResponse,
    String,
>)
    ensures
        states_of(*final(db)) == states_of(*old(db)),
        versions_of(*final(db)) == versions_of(*old(db)),
        r is Ok,
        r matches Ok(b) ==> bulk_counts_ok(b, request.note_ids@.len()),
        r matches Ok(b) ==> exists|now: i64, outcome: Seq<bool>| #[trigger] bulk_priority_ok(
            *old(db),
            *final(db),
            request,
            b,
            now,
            outcome,
        ),
        notes_of(*final(db)).dom() == notes_of(*old(db)).dom(),
        forall|id: int| #[trigger]
            notes_of(*old(db)).dom().contains(id) && !request.note_ids@.contains(id as i64)
                ==> notes_of(*final(db))[id] == notes_of(*old(db))[id],
{
    let ids = request.note_ids;
    let now = db.now_epoch();
    let mut successful: usize = 0;
    let mut failed: usize = 0;
    let mut errors: Vec<String> = Vec::new();
    let ghost mut outcome: Seq<bool> = Seq::empty();
    let mut i: usize = 0;
    let n = ids.len();
    while i < n
        invariant
            ids@.len() == n,
            ids@ == request.note_ids@,
            i <= n,
            successful + failed == i,
            outcome.len() == i,
            successful == count_true(outcome),
            errors@.len() == failed,
            forall|j: int|
                0 <= j < i && !notes_of(*old(db)).dom().contains(ids@[j] as int) ==> !(
                #[trigger] outcome[j]),
            forall|j: int|
                0 <= j < i && #[trigger] outcome[j] ==> notes_of(*old(db)).dom().contains(
                    ids@[j] as int,
                ) && notes_of(*db)[ids@[j] as int] == note_with_priority(
                    notes_of(*old(db))[ids@[j] as int],
                    request.priority,
                    now,
                ),
            forall|j: int|
                0 <= j < i && !(#[trigger] outcome[j]) ==> exists|k: int|
                    0 <= k < errors@.len() && (errors@[k]@ == not_found_text(ids@[j] as int)
                        || op_failed_text(errors@[k]@, "Failed to update note "@, ids@[j] as int)),
            notes_of(*db).dom() == notes_of(*old(db)).dom(),
            forall|id: int| #[trigger]
                notes_of(*old(db)).dom().contains(id) ==> notes_of(*db)[id] == notes_of(*old(db))[id]
                    || notes_of(*db)[id] == note_with_priority(
                    notes_of(*old(db))[id],
                    request.priority,
                    now,
                ),
            forall|id: int| #[trigger]
                notes_of(*old(db)).dom().contains(id) && !ids@.take(i as int).contains(id as i64)
                    ==> notes_of(*db)[id] == notes_of(*old(db))[id],
            states_of(*db) == states_of(*old(db)),
            versions_of(*db) == versions_of(*old(db)),
        decreases n - i,
    {
        let id = ids[i];
        let ghost pre = outcome;
        let ghost pre_errors = errors@;
        match db.set_note_priority(id, request.priority, now) {
            Ok(rows) => {
                if rows > 0 {
                    successful = successful + 1;
                    proof {
                        lemma_count_push(outcome, true);
                        outcome = outcome.push(true);
                        assert(notes_of(*db)[id as int] == note_with_priority(
                            notes_of(*old(db))[id as int],
                            request.priority,
                            now,
                        ));
                    }
                } else {
                    failed = failed + 1;
                    errors.push(not_found_note_message(id));
                    proof {
                        lemma_count_push(outcome, false);
                        outcome = outcome.push(false);
                        assert(errors@[pre_errors.len() as int]@ == not_found_text(id as int));
                    }
                }
            },
            Err(e) => {
                failed = failed + 1;
                errors.push(op_failed_message("Failed to update note ", id, &e));
                proof {
                    lemma_count_push(outcome, false);
                    outcome = outcome.push(false);
                    assert(op_failed_text(
                        errors@[pre_errors.len() as int]@,
                        "Failed to update note "@,
                        id as int,
                    ));
                }
            },
        }
        proof {
            assert(ids@.take(i + 1) =~= ids@.take(i as int).push(ids@[i as int]));
            assert forall|id2: int|
                notes_of(*old(db)).dom().contains(id2) && !ids@.take(i + 1).contains(
                    id2 as i64,
                ) implies notes_of(*db)[id2] == notes_of(*old(db))[id2] by {
                lemma_untargeted(ids@, i as int, id2);
            }
            assert forall|j: int|
                0 <= j < i + 1 && !(#[trigger] outcome[j]) implies exists|k: int|
                0 <= k < errors@.len() && (errors@[k]@ == not_found_text(ids@[j] as int)
                    || op_failed_text(errors@[k]@, "Failed to update note "@, ids@[j] as int)) by {
                if j < i {
                    assert(!pre[j]);
                    let k = choose|k: int|
                        0 <= k < pre_errors.len() && (pre_errors[k]@ == not_found_text(
                            ids@[j] as int,
                        ) || op_failed_text(pre_errors[k]@, "Failed to update note "@, ids@[j] as int));
                    assert(errors@[k] == pre_errors[k]);
                }
            }
        }
        i = i + 1;
    }
    proof {
        assert(ids@.take(n as int) =~= ids@);
    }
    let ghost ge = errors@;
    let errs = if errors.is_empty() {
        None
    } else {
        Some(errors)
    };
    let b = BulkOperationResponse {
        success: true,
        successful_count: successful,
        failed_count: failed,
        errors: errs,
        error: None,
    };
    proof {
        if ge.len() > 0 {
            assert(!(b.errors is None));
            assert(b.errors->Some_0@ == ge);
        }
        assert forall|i2: int|
            0 <= i2 < request.note_ids@.len() && !(#[trigger] outcome[i2]) implies (b.errors
            matches Some(es) && exists|k: int|
            0 <= k < es@.len() && (es@[k]@ == not_found_text(request.note_ids@[i2] as int)
                || op_failed_text(
                es@[k]@,
                "Failed to update note "@,
                request.note_ids@[i2] as int,
            ))) by {
            let k = choose|k: int|
                0 <= k < ge.len() && (ge[k]@ == not_found_text(request.note_ids@[i2] as int)
                    || op_failed_text(
                    ge[k]@,
                    "Failed to update note "@,
                    request.note_ids@[i2] as int,
                ));
            assert(0 <= k < ge.len());
            assert(ge.len() > 0);
            assert(b.errors->Some_0@[k] == ge[k]);
        }
        assert(bulk_priority_ok(*old(db), *db, request, b, now, outcome));
    }
    Ok(b)
}

/// Set the done flag of each listed note to one broadcast value, as
/// `bulk_update_notes_priority` does for the priority.
pub fn bulk_update_notes_done(db: &mut Db, request: BulkUpdateDoneRequest) -> (r: Result<
    BulkOperationResponse,
    String,
>)
    ensures
        states_of(*final(db)) == states_of(*old(db)),
        versions_of(*final(db)) == versions_of(*old(db)),
        r is Ok,
        r matches Ok(b) ==> bulk_counts_ok(b, request.note_ids@.len()),
        r matches Ok(b) ==> exists|now: i64, outcome: Seq<bool>| #[trigger] bulk_done_ok(
            *old(db),
            *final(db),
            request,
            b,
            now,
            outcome,
        ),
        notes_of(*final(db)).dom() == notes_of(*old(db)).dom(),
        forall|id: int| #[trigger]
            notes_of(*old(db)).dom().contains(id) && !request.note_ids@.contains(id as i64)
                ==> notes_of(*final(db))[id] == notes_of(*old(db))[id],
{
    let ids = request.note_ids;
    let now = db.now_epoch();
    let flag: i64 = if request.done {
        1
    } else {
        0
    };
    let mut successful: usize = 0;
    let mut failed: usize = 0;
    let mut errors: Vec<String> = Vec::new();
    let ghost mut outcome: Seq<bool> = Seq::empty();
    let mut i: usize = 0;
    let n = ids.len();
    while i < n
        invariant
            ids@.len() == n,
            ids@ == request.note_ids@,
            i <= n,
            flag == done_flag(request.done),
            successful + failed == i,
            outcome.len() == i,
            successful == count_true(outcome),
            errors@.len() == failed,
            forall|j: int|
                0 <= j < i && !notes_of(*old(db)).dom().contains(ids@[j] as int) ==> !(
                #[trigger] outcome[j]),
            forall|j: int|
                0 <= j < i && #[trigger] outcome[j] ==> notes_of(*old(db)).dom().contains(
                    ids@[j] as int,
                ) && notes_of(*db)[ids@[j] as int] == note_with_done(
                    notes_of(*old(db))[ids@[j] as int],
                    done_flag(request.done),
                    now,
                ),
            forall|j: int|
                0 <= j < i && !(#[trigger] outcome[j]) ==> exists|k: int|
                    0 <= k < errors@.len() && (errors@[k]@ == not_found_text(ids@[j] as int)
                        || op_failed_text(errors@[k]@, "Failed to update note "@, ids@[j] as int)),
            notes_of(*db).dom() == notes_of(*old(db)).dom(),
            forall|id: int| #[trigger]
                notes_of(*old(db)).dom().contains(id) ==> notes_of(*db)[id] == notes_of(*old(db))[id]
                    || notes_of(*db)[id] == note_with_done(
                    notes_of(*old(db))[id],
                    done_flag(request.done),
                    now,
                ),
            forall|id: int| #[trigger]
                notes_of(*old(db)).dom().contains(id) && !ids@.take(i as int).contains(id as i64)
                    ==> notes_of(*db)[id] == notes_of(*old(db))[id],
            states_of(*db) == states_of(*old(db)),
            versions_of(*db) == versions_of(*old(db)),
        decreases n - i,
    {
        let id = ids[i];
        let ghost pre = outcome;
        let ghost pre_errors = errors@;
        match db.set_note_done(id, flag, now) {
            Ok(rows) => {
                if rows > 0 {
                    successful = successful + 1;
                    proof {
                        lemma_count_push(outcome, true);
                        outcome = outcome.push(true);
                        assert(notes_of(*db)[id as int] == note_with_done(
                            notes_of(*old(db))[id as int],
                            done_flag(request.done),
                            now,
                        ));
                    }
                } else {
                    failed = failed + 1;
                    errors.push(not_found_note_message(id));
                    proof {
                        lemma_count_push(outcome, false);
                        outcome = outcome.push(false);
                        assert(errors@[pre_errors.len() as int]@ == not_found_text(id as int));
                    }
                }
            },
            Err(e) => {
                failed = failed + 1;
                errors.push(op_failed_message("Failed to update note ", id, &e));
                proof {
                    lemma_count_push(outcome, false);
                    outcome = outcome.push(false);
                    assert(op_failed_text(
                        errors@[pre_errors.len() as int]@,
                        "Failed to update note "@,
                        id as int,
                    ));
                }
            },
        }
        proof {
            assert(ids@.take(i + 1) =~= ids@.take(i as int).push(ids@[i as int]));
            assert forall|id2: int|
                notes_of(*old(db)).dom().contains(id2) && !ids@.take(i + 1).contains(
                    id2 as i64,
                ) implies notes_of(*db)[id2] == notes_of(*old(db))[id2] by {
                lemma_untargeted(ids@, i as int, id2);
            }
            assert forall|j: int|
                0 <= j < i + 1 && !(#[trigger] outcome[j]) implies exists|k: int|
                0 <= k < errors@.len() && (errors@[k]@ == not_found_text(ids@[j] as int)
                    || op_failed_text(errors@[k]@, "Failed to update note "@, ids@[j] as int)) by {
                if j < i {
                    assert(!pre[j]);
                    let k = choose|k: int|
                        0 <= k < pre_errors.len() && (pre_errors[k]@ == not_found_text(
                            ids@[j] as int,
                        ) || op_failed_text(pre_errors[k]@, "Failed to update note "@, ids@[j] as int));
                    assert(errors@[k] == pre_errors[k]);
                }
            }
        }
        i = i + 1;
    }
    proof {
        assert(ids@.take(n as int) =~= ids@);
    }
    let ghost ge = errors@;
    let errs = if errors.is_empty() {
        None
    } else {
        Some(errors)
    };
    let b = BulkOperationResponse {
        success: true,
        successful_count: successful,
        failed_count: failed,
        errors: errs,
        error: None,
    };
    proof {
        if ge.len() > 0 {
            assert(!(b.errors is None));
            assert(b.errors->Some_0@ == ge);
        }
        assert forall|i2: int|
            0 <= i2 < request.note_ids@.len() && !(#[trigger] outcome[i2]) implies (b.errors
            matches Some(es) && exists|k: int|
            0 <= k < es@.len() && (es@[k]@ == not_found_text(request.note_ids@[i2] as int)
                || op_failed_text(
                es@[k]@,
                "Failed to update note "@,
                request.note_ids@[i2] as int,
            ))) by {
            let k = choose|k: int|
                0 <= k < ge.len() && (ge[k]@ == not_found_text(request.note_ids@[i2] as int)
                    || op_failed_text(
                    ge[k]@,
                    "Failed to update note "@,
                    request.note_ids@[i2] as int,
                ));
            assert(0 <= k < ge.len());
            assert(ge.len() > 0);
            assert(b.errors->Some_0@[k] == ge[k]);
        }
        assert(bulk_done_ok(*old(db), *db, request, b, now, outcome));
    }
    Ok(b)
}

/// Assign each listed note to one broadcast state, as
/// `bulk_update_notes_priority` does for the priority. Assigning a state
/// the store does not hold fails per item, by the foreign-key check.
pub fn bulk_update_notes_state(db: &mut Db, request: BulkUpdateStateRequest) -> (r: Result<
    BulkOperationResponse,
    String,
>)
    ensures
        states_of(*final(db)) == states_of(*old(db)),
        versions_of(*final(db)) == versions_of(*old(db)),
        r is Ok,
        r matches Ok(b) ==> bulk_counts_ok(b, request.note_ids@.len()),
        r matches Ok(b) ==> exists|now: i64, outcome: Seq<bool>| #[trigger] bulk_state_ok(
            *old(db),
            *final(db),
            request,
            b,
            now,
            outcome,
        ),
        notes_of(*final(db)).dom() == notes_of(*old(db)).dom(),
        forall|id: int| #[trigger]
            notes_of(*old(db)).dom().contains(id) && !request.note_ids@.contains(id as i64)
                ==> notes_of(*final(db))[id] == notes_of(*old(db))[id],
{
    let ids = request.note_ids;
    let now = db.now_epoch();
    let mut successful: usize = 0;
    let mut failed: usize = 0;
    let mut errors: Vec<String> = Vec::new();
    let ghost mut outcome: Seq<bool> = Seq::empty();
    let mut i: usize = 0;
    let n = ids.len();
    while i < n
        invariant
            ids@.len() == n,
            ids@ == request.note_ids@,
            i <= n,
            successful + failed == i,
            outcome.len() == i,
            successful == count_true(outcome),
            errors@.len() == failed,
            forall|j: int|
                0 <= j < i && !notes_of(*old(db)).dom().contains(ids@[j] as int) ==> !(
                #[trigger] outcome[j]),
            forall|j: int|
                0 <= j < i && #[trigger] outcome[j] ==> notes_of(*old(db)).dom().contains(
                    ids@[j] as int,
                ) && notes_of(*db)[ids@[j] as int] == note_with_state(
                    notes_of(*old(db))[ids@[j] as int],
                    request.state_id,
                    now,
                ),
            forall|j: int|
                0 <= j < i && !(#[trigger] outcome[j]) ==> exists|k: int|
                    0 <= k < errors@.len() && (errors@[k]@ == not_found_text(ids@[j] as int)
                        || op_failed_text(errors@[k]@, "Failed to update note "@, ids@[j] as int)),
            notes_of(*db).dom() == notes_of(*old(db)).dom(),
            forall|id: int| #[trigger]
                notes_of(*old(db)).dom().contains(id) ==> notes_of(*db)[id] == notes_of(*old(db))[id]
                    || notes_of(*db)[id] == note_with_state(
                    notes_of(*old(db))[id],
                    request.state_id,
                    now,
                ),
            forall|id: int| #[trigger]
                notes_of(*old(db)).dom().contains(id) && !ids@.take(i as int).contains(id as i64)
                    ==> notes_of(*db)[id] == notes_of(*old(db))[id],
            states_of(*db) == states_of(*old(db)),
            versions_of(*db) == versions_of(*old(db)),
        decreases n - i,
    {
        let id = ids[i];
        let ghost pre = outcome;
        let ghost pre_errors = errors@;
        match db.set_note_state(id, request.state_id, now) {
            Ok(rows) => {
                if rows > 0 {
                    successful = successful + 1;
                    proof {
                        lemma_count_push(outcome, true);
                        outcome = outcome.push(true);
                        assert(notes_of(*db)[id as int] == note_with_state(
                            notes_of(*old(db))[id as int],
                            request.state_id,
                            now,
                        ));
                    }
                } else {
                    failed = failed + 1;
                    errors.push(not_found_note_message(id));
                    proof {
                        lemma_count_push(outcome, false);
                        outcome = outcome.push(false);
                        assert(errors@[pre_errors.len() as int]@ == not_found_text(id as int));
                    }
                }
            },
            Err(e) => {
                failed = failed + 1;
                errors.push(op_failed_message("Failed to update note ", id, &e));
                proof {
                    lemma_count_push(outcome, false);
                    outcome = outcome.push(false);
                    assert(op_failed_text(
                        errors@[pre_errors.len() as int]@,
                        "Failed to update note "@,
                        id as int,
                    ));
                }
            },
        }
        proof {
            assert(ids@.take(i + 1) =~= ids@.take(i as int).push(ids@[i as int]));
            assert forall|id2: int|
                notes_of(*old(db)).dom().contains(id2) && !ids@.take(i + 1).contains(
                    id2 as i64,
                ) implies notes_of(*db)[id2] == notes_of(*old(db))[id2] by {
                lemma_untargeted(ids@, i as int, id2);
            }
            assert forall|j: int|
                0 <= j < i + 1 && !(#[trigger] outcome[j]) implies exists|k: int|
                0 <= k < errors@.len() && (errors@[k]@ == not_found_text(ids@[j] as int)
                    || op_failed_text(errors@[k]@, "Failed to update note "@, ids@[j] as int)) by {
                if j < i {
                    assert(!pre[j]);
                    let k = choose|k: int|
                        0 <= k < pre_errors.len() && (pre_errors[k]@ == not_found_text(
                            ids@[j] as int,
                        ) || op_failed_text(pre_errors[k]@, "Failed to update note "@, ids@[j] as int));
                    assert(errors@[k] == pre_errors[k]);
                }
            }
        }
        i = i + 1;
    }
    proof {
        assert(ids@.take(n as int) =~= ids@);
    }
    let ghost ge = errors@;
    let errs = if errors.is_empty() {
        None
    } else {
        Some(errors)
    };
    let b = BulkOperationResponse {
        success: true,
        successful_count: successful,
        failed_count: failed,
        errors: errs,
        error: None,
    };
    proof {
        if ge.len() > 0 {
            assert(!(b.errors is None));
            assert(b.errors->Some_0@ == ge);
        }
        assert forall|i2: int|
            0 <= i2 < request.note_ids@.len() && !(#[trigger] outcome[i2]) implies (b.errors
            matches Some(es) && exists|k: int|
            0 <= k < es@.len() && (es@[k]@ == not_found_text(request.note_ids@[i2] as int)
                || op_failed_text(
                es@[k]@,
                "Failed to update note "@,
                request.note_ids@[i2] as int,
            ))) by {
            let k = choose|k: int|
                0 <= k < ge.len() && (ge[k]@ == not_found_text(request.note_ids@[i2] as int)
                    || op_failed_text(
                    ge[k]@,
                    "Failed to update note "@,
                    request.note_ids@[i2] as int,
                ));
            assert(0 <= k < ge.len());
            assert(ge.len() > 0);
            assert(b.errors->Some_0@[k] == ge[k]);
        }
        assert(bulk_state_ok(*old(db), *db, request, b, now, outcome));
    }
    Ok(b)
}

/// The order value the request assigns to position `j` of the id list: the
/// parallel entry, or zero when the orders array is shorter.
pub open spec fn order_of(req: BulkUpdateOrderRequest, j: int) -> i32 {
    if 0 <= j < req.orders@.len() {
        req.orders@[j]
    } else {
        0
    }
}

/// Set each listed note's manual order to the positionally matched value of
/// the parallel array, restamping each touched note's update time. Missing
/// order entries default to zero; missing ids count as failures.
pub fn bulk_update_notes_order(db: &mut Db, request: BulkUpdateOrderRequest) -> (r: Result<
    BulkOperationResponse,
    String,
>)
    ensures
        states_of(*final(db)) == states_of(*old(db)),
        versions_of(*final(db)) == versions_of(*old(db)),
        r is Ok,
        r matches Ok(b) ==> bulk_counts_ok(b, request.note_ids@.len()),
        r matches Ok(b) ==> exists|now: i64, outcome: Seq<bool>| #[trigger] bulk_order_ok(
            *old(db),
            *final(db),
            request,
            b,
            now,
            outcome,
        ),
        notes_of(*final(db)).dom() == notes_of(*old(db)).dom(),
        forall|id: int| #[trigger]
            notes_of(*old(db)).dom().contains(id) && !request.note_ids@.contains(id as i64)
                ==> notes_of(*final(db))[id] == notes_of(*old(db))[id],
{
    let ids = request.note_ids;
    let now = db.now_epoch();
    let mut successful: usize = 0;
    let mut failed: usize = 0;
    let mut errors: Vec<String> = Vec::new();
    let ghost mut outcome: Seq<bool> = Seq::empty();
    let mut i: usize = 0;
    let n = ids.len();
    while i < n
        invariant
            ids@.len() == n,
            ids@ == request.note_ids@,
            i <= n,
            successful + failed == i,
            outcome.len() == i,
            successful == count_true(outcome),
            errors@.len() == failed,
            forall|j: int|
                0 <= j < i && !notes_of(*old(db)).dom().contains(ids@[j] as int) ==> !(
                #[trigger] outcome[j]),
            forall|j: int|
                0 <= j < i && #[trigger] outcome[j] ==> notes_of(*old(db)).dom().contains(
                    ids@[j] as int,
                ) && exists|j2: int|
                    0 <= j2 < ids@.len() && ids@[j2] == ids@[j] && notes_of(*db)[ids@[j] as int]
                        == note_with_order(
                        notes_of(*old(db))[ids@[j] as int],
                        order_of(request, j2),
                        now,
                    ),
            forall|j: int|
                0 <= j < i && !(#[trigger] outcome[j]) ==> exists|k: int|
                    0 <= k < errors@.len() && (errors@[k]@ == not_found_text(ids@[j] as int)
                        || op_failed_text(errors@[k]@, "Failed to update note "@, ids@[j] as int)),
            notes_of(*db).dom() == notes_of(*old(db)).dom(),
            forall|id: int| #[trigger]
                notes_of(*old(db)).dom().contains(id) ==> notes_of(*db)[id] == notes_of(*old(db))[id]
                    || exists|j: int|
                    0 <= j < i && ids@[j] == id && notes_of(*db)[id] == note_with_order(
                        notes_of(*old(db))[id],
                        order_of(request, j),
                        now,
                    ),
            forall|id: int| #[trigger]
                notes_of(*old(db)).dom().contains(id) && !ids@.take(i as int).contains(id as i64)
                    ==> notes_of(*db)[id] == notes_of(*old(db))[id],
            states_of(*db) == states_of(*old(db)),
            versions_of(*db) == versions_of(*old(db)),
        decreases n - i,
    {
        let id = ids[i];
        let ghost pre = outcome;
        let ghost pre_errors = errors@;
        let order: i32 = if i < request.orders.len() {
            request.orders[i]
        } else {
            0
        };
        proof {
            assert(order == order_of(request, i as int));
        }
        match db.set_note_order(id, order, now) {
            Ok(rows) => {
                if rows > 0 {
                    successful = successful + 1;
                    proof {
                        lemma_count_push(outcome, true);
                        outcome = outcome.push(true);
                        assert(notes_of(*db)[id as int] == note_with_order(
                            notes_of(*old(db))[id as int],
                            order_of(request, i as int),
                            now,
                        ));
                        assert forall|j: int|
                            0 <= j < i + 1 && #[trigger] outcome[j] implies notes_of(
                            *old(db),
                        ).dom().contains(ids@[j] as int) && exists|j2: int|
                            0 <= j2 < ids@.len() && ids@[j2] == ids@[j] && notes_of(*db)[ids@[j]
                            as int] == note_with_order(
                            notes_of(*old(db))[ids@[j] as int],
                            order_of(request, j2),
                            now,
                        ) by {
                            if j < i {
                                assert(pre[j]);
                                if ids@[j] == ids@[i as int] {
                                    assert(0 <= i < ids@.len() && ids@[i as int] == ids@[j]);
                                } else {
                                    assert(ids@[j] as int != ids@[i as int] as int);
                                }
                            }
                        }
                    }
                } else {
                    failed = failed + 1;
                    errors.push(not_found_note_message(id));
                    proof {
                        lemma_count_push(outcome, false);
                        outcome = outcome.push(false);
                        assert(errors@[pre_errors.len() as int]@ == not_found_text(id as int));
                    }
                }
            },
            Err(e) => {
                failed = failed + 1;
                errors.push(op_failed_message("Failed to update note ", id, &e));
                proof {
                    lemma_count_push(outcome, false);
                    outcome = outcome.push(false);
                    assert(op_failed_text(
                        errors@[pre_errors.len() as int]@,
                        "Failed to update note "@,
                        id as int,
                    ));
                }
            },
        }
        proof {
            assert(ids@.take(i + 1) =~= ids@.take(i as int).push(ids@[i as int]));
            assert forall|id2: int|
                notes_of(*old(db)).dom().contains(id2) && !ids@.take(i + 1).contains(
                    id2 as i64,
                ) implies notes_of(*db)[id2] == notes_of(*old(db))[id2] by {
                lemma_untargeted(ids@, i as int, id2);
            }
            assert forall|j: int|
                0 <= j < i + 1 && !(#[trigger] outcome[j]) implies exists|k: int|
                0 <= k < errors@.len() && (errors@[k]@ == not_found_text(ids@[j] as int)
                    || op_failed_text(errors@[k]@, "Failed to update note "@, ids@[j] as int)) by {
                if j < i {
                    assert(!pre[j]);
                    let k = choose|k: int|
                        0 <= k < pre_errors.len() && (pre_errors[k]@ == not_found_text(
                            ids@[j] as int,
                        ) || op_failed_text(pre_errors[k]@, "Failed to update note "@, ids@[j] as int));
                    assert(errors@[k] == pre_errors[k]);
                }
            }
        }
        i = i + 1;
    }
    proof {
        assert(ids@.take(n as int) =~= ids@);
    }
    let ghost ge = errors@;
    let errs = if errors.is_empty() {
        None
    } else {
        Some(errors)
    };
    let b = BulkOperationResponse {
        success: true,
        successful_count: successful,
        failed_count: failed,
        errors: errs,
        error: None,
    };
    proof {
        if ge.len() > 0 {
            assert(!(b.errors is None));
            assert(b.errors->Some_0@ == ge);
        }
        assert forall|i2: int|
            0 <= i2 < request.note_ids@.len() && !(#[trigger] outcome[i2]) implies (b.errors
            matches Some(es) && exists|k: int|
            0 <= k < es@.len() && (es@[k]@ == not_found_text(request.note_ids@[i2] as int)
                || op_failed_text(
                es@[k]@,
                "Failed to update note "@,
                request.note_ids@[i2] as int,
            ))) by {
            let k = choose|k: int|
                0 <= k < ge.len() && (ge[k]@ == not_found_text(request.note_ids@[i2] as int)
                    || op_failed_text(
                    ge[k]@,
                    "Failed to update note "@,
                    request.note_ids@[i2] as int,
                ));
            assert(0 <= k < ge.len());
            assert(ge.len() > 0);
            assert(b.errors->Some_0@[k] == ge[k]);
        }
        assert(bulk_order_ok(*old(db), *db, request, b, now, outcome));
    }
    Ok(b)
}

/// Whether any label, lower-cased, mentions "progress" (which also covers
/// "in-progress").
pub open spec fn labels_mention_progress(ls: Seq<Seq<char>>) -> bool {
    exists|i: int| 0 <= i < ls.len() && has_substr(lower_seq(#[trigger] ls[i]), "progress"@)
}

/// The kanban column name inferred for an unassigned note: done notes go to
/// the terminal column, notes labelled as in progress to the middle one,
/// everything else to the first.
pub open spec fn inferred_state_name(done: i64, ls: Seq<Seq<char>>) -> Seq<char> {
    if done != 0 {
        "Done"@
    } else if labels_mention_progress(ls) {
        "In Progress"@
    } else {
        "To Do"@
    }
}

/// Whether any of the given labels mentions "progress", case-insensitively.
fn labels_have_progress(labels: &Vec<String>) -> (r: bool)
    ensures
        r == labels_mention_progress(labels.deep_view()),
{
    let pat = str_chars("progress");
    let mut k: usize = 0;
    while k < labels.len()
        invariant
            pat@ == "progress"@,
            k <= labels@.len(),
            forall|j: int|
                0 <= j < k ==> !has_substr(lower_seq(#[trigger] labels.deep_view()[j]), "progress"@),
        decreases labels@.len() - k,
    {
        let lv = str_chars(labels[k].as_str());
        let low = to_lower(&lv);
        if contains_seq(&low, &pat) {
            proof {
                assert(labels.deep_view()[k as int] == labels@[k as int]@);
            }
            return true;
        }
        proof {
            assert(labels.deep_view()[k as int] == labels@[k as int]@);
        }
        k = k + 1;
    }
    false
}

/// How the sweep may leave one formerly unassigned note: untouched, or
/// assigned to a state the store holds whose name — whenever the stored
/// label text is a well-formed encoded list — is the inferred column.
pub open spec fn sweep_assignment_ok(o: NoteRow, f: NoteRow, states: Map<int, StateRow>) -> bool {
    ||| f == o
    ||| exists|sid: i64, now: i64|
        {
            &&& #[trigger] note_with_state(o, sid, now) == f
            &&& states.dom().contains(sid as int)
            &&& forall|ls: Seq<Seq<char>>|
                o.labels_json@ == #[trigger] enc_labels(ls) ==> states[sid as int].name@
                    == inferred_state_name(o.done, ls)
        }
}

/// What the sweep does to the whole store: ids are kept, already assigned
/// notes are untouched, and each unassigned note is handled as
/// `sweep_assignment_ok` says.
/// A completed sweep leaves no note behind that it could place: an
/// unassigned note — whenever its stored label text is a well-formed
/// encoded list — is assigned whenever some state bears its inferred
/// column name.
pub open spec fn sweep_completed(db0: Db, db1: Db) -> bool {
    forall|id: int| #[trigger]
        notes_of(db0).dom().contains(id) && notes_of(db0)[id].state_id is None ==> (forall|
            ls: Seq<Seq<char>>,
        |
            notes_of(db0)[id].labels_json@ == #[trigger] enc_labels(ls) ==> ((exists|sid: int|
                #[trigger] states_of(db0).dom().contains(sid) && states_of(db0)[sid].name@
                    == inferred_state_name(notes_of(db0)[id].done, ls))
                ==> notes_of(db1)[id].state_id is Some))
}

pub open spec fn sweep_model(db0: Db, db1: Db) -> bool {
    &&& notes_of(db1).dom() == notes_of(db0).dom()
    &&& forall|id: int| #[trigger]
        notes_of(db0).dom().contains(id) ==> (if notes_of(db0)[id].state_id is Some {
            notes_of(db1)[id] == notes_of(db0)[id]
        } else {
            sweep_assignment_ok(notes_of(db0)[id], notes_of(db1)[id], states_of(db0))
        })
}

/// Assign a kanban state to every note that lacks one, inferring the column
/// from the note's done flag and labels and leaving the note unassigned when
/// no column of that name exists.
pub fn migrate_notes_to_states(db: &mut Db) -> (r: Result<NoteResponse, String>)
    ensures
        states_of(*final(db)) == states_of(*old(db)),
        versions_of(*final(db)) == versions_of(*old(db)),
        sweep_model(*old(db), *final(db)),
        r is Ok ==> sweep_completed(*old(db), *final(db)),
        r matches Ok(resp) ==> resp.success && resp.data is None && resp.error is None,
{
    let rows = match db.select_unassigned_notes() {
        Ok(v) => v,
        Err(e) => {
            return Err(e);
        },
    };
    let ghost grows = rows@;
    let mut rest = rows;
    let mut i: usize = 0;
    let n = rest.len();
    while i < n
        invariant
            grows.len() == n,
            rest@ == grows.skip(i as int),
            i <= n,
            crate::db::note_rows_sound(grows, notes_of(*old(db))),
            crate::db::note_rows_distinct(grows),
            forall|j: int| 0 <= j < n ==> (#[trigger] grows[j]).state_id is None,
            notes_of(*db).dom() == notes_of(*old(db)).dom(),
            states_of(*db) == states_of(*old(db)),
            versions_of(*db) == versions_of(*old(db)),
            forall|id: int| #[trigger]
                notes_of(*old(db)).dom().contains(id) ==> (if notes_of(*old(db))[id].state_id
                    is Some {
                    notes_of(*db)[id] == notes_of(*old(db))[id]
                } else {
                    sweep_assignment_ok(
                        notes_of(*old(db))[id],
                        notes_of(*db)[id],
                        states_of(*old(db)),
                    )
                }),
            forall|j: int|
                i <= j < n ==> notes_of(*db)[(#[trigger] grows[j]).id as int] == notes_of(*old(db))[
                grows[j].id as int],
            forall|j: int|
                0 <= j < i ==> (forall|ls: Seq<Seq<char>>|
                    (#[trigger] grows[j]).labels_json@ == #[trigger] enc_labels(ls) ==> ((exists|
                        sid: int,
                    |
                        #[trigger] states_of(*old(db)).dom().contains(sid) && states_of(*old(db))[
                        sid].name@ == inferred_state_name(grows[j].done, ls)) ==> notes_of(*db)[
                    grows[j].id as int].state_id is Some)),
        decreases n - i,
    {
        let row = rest.remove(0);
        proof {
            assert(row == grows[i as int]);
            assert(rest@ =~= grows.skip(i + 1));
        }
        let labels = labels_from_json(row.labels_json.as_str());
        let name: &str = if row.done != 0 {
            "Done"
        } else if labels_have_progress(&labels) {
            "In Progress"
        } else {
            "To Do"
        };
        match db.state_id_by_name(name) {
            Ok(Some(sid)) => {
                let now = db.now_epoch();
                match db.set_note_state(row.id, sid, now) {
                    Ok(_) => {
                        proof {
                            let o = notes_of(*old(db))[row.id as int];
                            assert(notes_of(*old(db)).contains_pair(row.id as int, row));
                            assert(note_with_state(o, sid, now) == notes_of(*db)[row.id as int]);
                            assert(sweep_assignment_ok(
                                o,
                                notes_of(*db)[row.id as int],
                                states_of(*old(db)),
                            ));
                        }
                    },
                    Err(e) => {
                        return Err(e);
                    },
                }
            },
            Ok(None) => {
                proof {
                    assert forall|ls: Seq<Seq<char>>|
                        row.labels_json@ == #[trigger] enc_labels(ls) implies !(exists|sid: int|
                        #[trigger] states_of(*old(db)).dom().contains(sid) && states_of(*old(db))[
                        sid].name@ == inferred_state_name(row.done, ls)) by {
                        assert(labels.deep_view() == ls);
                        assert(name@ == inferred_state_name(row.done, ls));
                    }
                }
            },
            Err(e) => {
                return Err(e);
            },
        }
        proof {
            assert forall|j: int|
                i + 1 <= j < n implies notes_of(*db)[(#[trigger] grows[j]).id as int] == notes_of(
                *old(db),
            )[grows[j].id as int] by {
                assert(grows[j].id != grows[i as int].id);
            }
            assert forall|j: int| 0 <= j < i + 1 implies (forall|ls: Seq<Seq<char>>|
                (#[trigger] grows[j]).labels_json@ == #[trigger] enc_labels(ls) ==> ((exists|
                    sid: int,
                |
                    #[trigger] states_of(*old(db)).dom().contains(sid) && states_of(*old(db))[
                    sid].name@ == inferred_state_name(grows[j].done, ls)) ==> notes_of(*db)[
                grows[j].id as int].state_id is Some)) by {
                if j < i {
                    assert(grows[j].id != grows[i as int].id);
                }
            }
        }
        i = i + 1;
    }
    proof {
        assert forall|id: int|
            notes_of(*old(db)).dom().contains(id) && notes_of(*old(db))[id].state_id
                is None implies (forall|ls: Seq<Seq<char>>|
            notes_of(*old(db))[id].labels_json@ == #[trigger] enc_labels(ls) ==> ((exists|sid: int|
                #[trigger] states_of(*old(db)).dom().contains(sid) && states_of(*old(db))[sid].name@
                    == inferred_state_name(notes_of(*old(db))[id].done, ls)) ==> notes_of(*db)[
            id].state_id is Some)) by {
            let j = choose|j: int| 0 <= j < grows.len() && grows[j].id == id;
            assert(notes_of(*old(db)).contains_pair(grows[j].id as int, grows[j]));
            assert(grows[j] == notes_of(*old(db))[id]);
        }
        assert(sweep_completed(*old(db), *db));
    }
    Ok(NoteResponse { success: true, data: None, error: None })
}

} // verus!
