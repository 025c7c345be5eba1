//! Plain data types of the repository: entities, request payloads and the
//! response envelopes. Timestamps are seconds since the Unix epoch; the wire
//! representation (ISO-8601) is the caller's concern.

use vstd::prelude::*;

verus! {

/// A single note/task item as callers see it.
#[derive(Debug, Clone)]
pub struct Note {
    pub id: Option<i64>,
    pub title: String,
    pub content: String,
    pub created_at: Option<i64>,
    pub updated_at: Option<i64>,
    pub priority: i32,
    pub labels: Vec<String>,
    pub deadline: Option<i64>,
    pub reminder_minutes: i32,
    pub done: bool,
    pub state_id: Option<i64>,
    pub order: i32,
}

/// One column/stage of the kanban workflow.
#[derive(Debug, Clone)]
pub struct State {
    pub id: Option<i64>,
    pub name: String,
    pub position: i32,
    pub color: Option<String>,
    pub created_at: Option<i64>,
    pub updated_at: Option<i64>,
}

#[derive(Debug, Clone)]
pub struct CreateNoteRequest {
    pub title: String,
    pub content: String,
    pub priority: Option<i32>,
    pub labels: Option<Vec<String>>,
    pub deadline: Option<i64>,
    pub reminder_minutes: Option<i32>,
    pub done: Option<bool>,
    pub state_id: Option<i64>,
    pub order: Option<i32>,
}

#[derive(Debug, Clone)]
pub struct UpdateNoteRequest {
    pub id: i64,
    pub title: Option<String>,
    pub content: Option<String>,
    pub priority: Option<i32>,
    pub labels: Option<Vec<String>>,
    pub deadline: Option<i64>,
    pub reminder_minutes: Option<i32>,
    pub done: Option<bool>,
    pub state_id: Option<i64>,
    pub order: Option<i32>,
}

#[derive(Debug, Clone)]
pub struct SearchRequest {
    pub query: String,
    pub limit: Option<i32>,
    pub offset: Option<i32>,
}

#[derive(Debug, Clone)]
pub struct DeleteNoteRequest {
    pub id: i64,
}

#[derive(Debug, Clone)]
pub struct UpdateNoteDoneRequest {
    pub id: i64,
    pub done: bool,
}

#[derive(Debug, Clone)]
pub struct CreateStateRequest {
    pub name: String,
    pub position: i32,
    pub color: Option<String>,
}

#[derive(Debug, Clone)]
pub struct UpdateStateRequest {
    pub id: i64,
    pub name: Option<String>,
    pub position: Option<i32>,
    pub color: Option<String>,
}

#[derive(Debug)]
pub struct NoteResponse {
    pub success: bool,
    pub data: Option<Note>,
    pub error: Option<String>,
}

#[derive(Debug)]
pub struct NotesListResponse {
    pub success: bool,
    pub data: Vec<Note>,
    pub error: Option<String>,
}

#[derive(Debug)]
pub struct StateResponse {
    pub success: bool,
    pub data: Option<State>,
    pub error: Option<String>,
}

#[derive(Debug)]
pub struct StatesListResponse {
    pub success: bool,
    pub data: Vec<State>,
    pub error: Option<String>,
}

#[derive(Debug, Clone)]
pub struct BulkDeleteRequest {
    pub note_ids: Vec<i64>,
}

#[derive(Debug, Clone)]
pub struct BulkUpdatePriorityRequest {
    pub note_ids: Vec<i64>,
    pub priority: i32,
}

#[derive(Debug, Clone)]
pub struct BulkUpdateStateRequest {
    pub note_ids: Vec<i64>,
    pub state_id: i64,
}

#[derive(Debug, Clone)]
pub struct BulkUpdateDoneRequest {
    pub note_ids: Vec<i64>,
    pub done: bool,
}

#[derive(Debug, Clone)]
pub struct BulkUpdateOrderRequest {
    pub note_ids: Vec<i64>,
    pub orders: Vec<i32>,
}

#[derive(Debug)]
pub struct BulkOperationResponse {
    pub success: bool,
    pub successful_count: usize,
    pub failed_count: usize,
    pub errors: Option<Vec<String>>,
    pub error: Option<String>,
}

impl Note {
    /// The note with its priority replaced.
    pub fn with_priority(self, priority: i32) -> (r: Note)
        ensures
            r == (Note { priority, ..self }),
    {
        Note { priority, ..self }
    }

    /// The note with its labels replaced.
    pub fn with_labels(self, labels: Vec<String>) -> (r: Note)
        ensures
            r == (Note { labels, ..self }),
    {
        Note { labels, ..self }
    }

    /// The note with a deadline set.
    pub fn with_deadline(self, deadline: i64) -> (r: Note)
        ensures
            r == (Note { deadline: Some(deadline), ..self }),
    {
        Note { deadline: Some(deadline), ..self }
    }

    /// The note with its reminder offset replaced.
    pub fn with_reminder_minutes(self, reminder_minutes: i32) -> (r: Note)
        ensures
            r == (Note { reminder_minutes, ..self }),
    {
        Note { reminder_minutes, ..self }
    }

    /// The note with its done flag replaced.
    pub fn with_done(self, done: bool) -> (r: Note)
        ensures
            r == (Note { done, ..self }),
    {
        Note { done, ..self }
    }
}

} // verus!
