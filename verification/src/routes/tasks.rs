//! One handler per operation on tasks. Each takes the parsed request and the
//! shared state, calls the store, and answers with a status and a body or
//! with a failure.

use vstd::prelude::*;
use vstd::string::*;
use crate::clock::current_time;
use crate::errors::{AppError, not_found_text, empty_title_text, duplicate_id_text};
use crate::ident::{random_id, is_random_id};
use crate::models::task::{Task, CreateTask, PatchTask, TaskFilter, Pagination};
use crate::models::task::{task_views, is_blank, title_is_blank, new_task, fresh};
use crate::models::task::{patched, patch_is_invalid};
use crate::state::AppState;
use crate::store::{has_id, position, slot_for, matching, window};

verus! {

/// HTTP status of a successful read or update.
pub const OK: u16 = 200;

/// HTTP status of a successful creation.
pub const CREATED: u16 = 201;

/// HTTP status of a successful deletion.
pub const NO_CONTENT: u16 = 204;

/// A successful response: the HTTP status and the body before it is written
/// as JSON.
#[derive(Debug)]
pub struct Reply<T> {
    pub status: u16,
    pub body: T,
}

/// Answers a liveness probe: always status 200 with the body `OK`. The store
/// is not consulted.
pub fn health() -> (r: Reply<String>)
    ensures
        r.status == OK,
        r.body@ == "OK"@,
{
    Reply { status: OK, body: String::from_str("OK") }
}

/// Lists the tasks that pass the filter, newest first, cut to the window of
/// the pagination.
pub fn get_tasks(state: &AppState, filter: TaskFilter, pagination: Pagination) -> (r: Result<
    Reply<Vec<Task>>,
    AppError,
>)
    ensures
        r is Ok,
        r->Ok_0.status == OK,
        task_views(r->Ok_0.body@) == window(matching(state@, filter.completed), pagination),
{
    let tasks = state.store.list(&filter, &pagination);
    Ok(Reply { status: OK, body: tasks })
}

/// Answers a lookup: the task with status 200 where there is one, else the
/// missing-task failure.
pub fn found(task: Option<Task>) -> (r: Result<Reply<Task>, AppError>)
    ensures
        match r {
            Ok(reply) => reply.status == OK && task == Some(reply.body),
            Err(e) => task is None && e.is_not_found(not_found_text()),
        },
{
    match task {
        Some(task) => Ok(Reply { status: OK, body: task }),
        None => Err(AppError::task_not_found()),
    }
}

/// Fetches the task with the id `task_id`.
pub fn get_task(state: &AppState, task_id: u128) -> (r: Result<Reply<Task>, AppError>)
    ensures
        state.wf(),
        match r {
            Ok(reply) => {
                &&& reply.status == OK
                &&& has_id(state@, task_id)
                &&& reply.body@ == state@[position(state@, task_id)]
            },
            Err(e) => !has_id(state@, task_id) && e.is_not_found(not_found_text()),
        },
{
    found(state.store.get(task_id))
}

/// Answers a deletion that removed `rows_affected` records: status 204 where
/// it removed any, else the missing-task failure.
pub fn deleted(rows_affected: u64) -> (r: Result<Reply<()>, AppError>)
    ensures
        match r {
            Ok(reply) => rows_affected != 0 && reply.status == NO_CONTENT,
            Err(e) => rows_affected == 0 && e.is_not_found(not_found_text()),
        },
{
    if rows_affected == 0 {
        Err(AppError::task_not_found())
    } else {
        Ok(Reply { status: NO_CONTENT, body: () })
    }
}

/// Deletes the task with the id `task_id`.
pub fn delete_task(state: &mut AppState, task_id: u128) -> (r: Result<Reply<()>, AppError>)
    ensures
        final(state).wf(),
        match r {
            Ok(reply) => {
                &&& reply.status == NO_CONTENT
                &&& has_id(old(state)@, task_id)
                &&& final(state)@ == old(state)@.remove(position(old(state)@, task_id))
            },
            Err(e) => {
                &&& !has_id(old(state)@, task_id)
                &&& final(state)@ == old(state)@
                &&& e.is_not_found(not_found_text())
            },
        },
{
    match state.store.delete(task_id) {
        Ok(_) => deleted(1),
        Err(e) => Err(e),
    }
}

/// Validates a create request and builds its task: the id is drawn at random
/// and the creation instant is read from the clock. A blank title is refused
/// before either is done.
pub fn prepare_task(payload: CreateTask) -> (r: Result<Task, AppError>)
    ensures
        match r {
            Ok(t) => {
                &&& !is_blank(payload.title@)
                &&& t@ == fresh(t.id, payload.title@, t.created_at)
                &&& is_random_id(t.id)
                &&& t.created_at >= 0
            },
            Err(e) => is_blank(payload.title@) && e.is_bad_request(empty_title_text()),
        },
{
    if title_is_blank(payload.title.as_str()) {
        return Err(AppError::empty_title());
    }
    let id: u128 = random_id();
    let now: i64 = current_time();
    new_task(payload, id, now)
}

/// Stores a task that a create request made and answers with status 201 and
/// the task. An id that is already stored is refused, and nothing is stored.
pub fn store_created(state: &mut AppState, task: Task) -> (r: Result<Reply<Task>, AppError>)
    requires
        !is_blank(task.title@),
    ensures
        final(state).wf(),
        match r {
            Ok(reply) => {
                &&& !has_id(old(state)@, task.id)
                &&& reply.status == CREATED
                &&& reply.body@ == task@
                &&& final(state)@ == old(state)@.insert(
                    slot_for(old(state)@, task.created_at),
                    task@,
                )
            },
            Err(e) => {
                &&& has_id(old(state)@, task.id)
                &&& final(state)@ == old(state)@
                &&& e.is_internal(duplicate_id_text())
            },
        },
{
    state.store.validity();
    if state.store.contains(task.id) {
        return Err(AppError::duplicate_id());
    }
    let copy = task.clone();
    match state.store.insert(task) {
        Ok(_) => Ok(Reply { status: CREATED, body: copy }),
        Err(e) => Err(e),
    }
}

/// Creates a task from a request, with the id `id` and the creation instant
/// `now`. A blank title is refused first; an id that is already stored is
/// refused second. Either way nothing is stored.
pub fn create_task_with(state: &mut AppState, payload: CreateTask, id: u128, now: i64) -> (r:
    Result<Reply<Task>, AppError>)
    ensures
        final(state).wf(),
        match r {
            Ok(reply) => {
                &&& !is_blank(payload.title@)
                &&& !has_id(old(state)@, id)
                &&& reply.status == CREATED
                &&& reply.body@ == fresh(id, payload.title@, now)
                &&& final(state)@ == old(state)@.insert(slot_for(old(state)@, now), reply.body@)
            },
            Err(e) => {
                &&& final(state)@ == old(state)@
                &&& if is_blank(payload.title@) {
                    e.is_bad_request(empty_title_text())
                } else {
                    has_id(old(state)@, id) && e.is_internal(duplicate_id_text())
                }
            },
        },
{
    state.store.validity();
    match new_task(payload, id, now) {
        Ok(task) => store_created(state, task),
        Err(e) => Err(e),
    }
}

/// Creates a task from a request: the id is drawn at random and the creation
/// instant is read from the clock. A blank title is refused and nothing is
/// stored. The new task is not completed and carries the title as sent; its
/// id was not in the store before, and the store has grown by that task alone.
pub fn create_task(state: &mut AppState, payload: CreateTask) -> (r: Result<Reply<Task>, AppError>)
    ensures
        final(state).wf(),
        match r {
            Ok(reply) => {
                &&& !is_blank(payload.title@)
                &&& reply.status == CREATED
                &&& reply.body@ == fresh(reply.body.id, payload.title@, reply.body.created_at)
                &&& is_random_id(reply.body.id)
                &&& reply.body.created_at >= 0
                &&& !has_id(old(state)@, reply.body.id)
                &&& final(state)@ == old(state)@.insert(
                    slot_for(old(state)@, reply.body.created_at),
                    reply.body@,
                )
            },
            Err(e) => {
                &&& final(state)@ == old(state)@
                &&& if is_blank(payload.title@) {
                    e.is_bad_request(empty_title_text())
                } else {
                    e.is_internal(duplicate_id_text())
                }
            },
        },
{
    state.store.validity();
    match prepare_task(payload) {
        Ok(task) => store_created(state, task),
        Err(e) => Err(e),
    }
}

/// Applies a patch to the task with the id `task_id` and answers with the
/// task as it then stands. A missing id is reported first, a blank title
/// second; either way the store stays as it was.
pub fn patch_task(state: &mut AppState, task_id: u128, payload: PatchTask) -> (r: Result<
    Reply<Task>,
    AppError,
>)
    ensures
        final(state).wf(),
        match r {
            Ok(reply) => {
                &&& reply.status == OK
                &&& has_id(old(state)@, task_id)
                &&& !patch_is_invalid(payload)
                &&& reply.body@ == patched(old(state)@[position(old(state)@, task_id)], payload)
                &&& final(state)@ == old(state)@.update(
                    position(old(state)@, task_id),
                    reply.body@,
                )
            },
            Err(e) => {
                &&& final(state)@ == old(state)@
                &&& if has_id(old(state)@, task_id) {
                    patch_is_invalid(payload) && e.is_bad_request(empty_title_text())
                } else {
                    e.is_not_found(not_found_text())
                }
            },
        },
{
    match state.store.update(task_id, payload) {
        Ok(task) => Ok(Reply { status: OK, body: task }),
        Err(e) => Err(e),
    }
}

} // verus!
