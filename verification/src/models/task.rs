//! The task record, the request payloads, and the title validation rule.

use vstd::prelude::*;
use vstd::string::*;
use vstd::std_specs::iter::IteratorSpec;
use crate::errors::{AppError, empty_title_text};

verus! {

/// Body of a create request.
pub struct CreateTask {
    pub title: String,
}

/// Body of a partial update: each field is either present or absent.
pub struct PatchTask {
    pub title: Option<String>,
    pub completed: Option<bool>,
}

/// A stored task. `id` is the 128-bit value of the task's UUID, `created_at`
/// the creation instant in microseconds since the Unix epoch (UTC).
#[derive(Debug)]
pub struct Task {
    pub id: u128,
    pub title: String,
    pub completed: bool,
    pub created_at: i64,
}

/// Query constraint of the list operation.
pub struct TaskFilter {
    pub completed: Option<bool>,
}

/// Window of the list operation: skip `offset` records, then keep at most
/// `limit` of them. An absent field does not constrain.
pub struct Pagination {
    pub limit: Option<u64>,
    pub offset: Option<u64>,
}

/// Mathematical value of a [`Task`].
pub ghost struct TaskView {
    pub id: u128,
    pub title: Seq<char>,
    pub completed: bool,
    pub created_at: i64,
}

impl View for Task {
    type V = TaskView;

    open spec fn view(&self) -> TaskView {
        TaskView {
            id: self.id,
            title: self.title@,
            completed: self.completed,
            created_at: self.created_at,
        }
    }
}

impl Clone for Task {
    fn clone(&self) -> (r: Self)
        ensures
            r@ == self@,
    {
        Task {
            id: self.id,
            title: self.title.clone(),
            completed: self.completed,
            created_at: self.created_at,
        }
    }
}

/// The views of a sequence of tasks, one for one.
pub open spec fn task_views(tasks: Seq<Task>) -> Seq<TaskView> {
    Seq::new(tasks.len(), |i: int| tasks[i]@)
}

/// Whether `c` has the Unicode `White_Space` property.
pub open spec fn is_white_space(c: char) -> bool {
    let n = c as int;
    ||| 0x09 <= n <= 0x0D
    ||| n == 0x20
    ||| n == 0x85
    ||| n == 0xA0
    ||| n == 0x1680
    ||| 0x2000 <= n <= 0x200A
    ||| n == 0x2028
    ||| n == 0x2029
    ||| n == 0x202F
    ||| n == 0x205F
    ||| n == 0x3000
}

/// A title is blank when nothing is left of it after trimming white space,
/// that is when every character of it is white space.
pub open spec fn is_blank(title: Seq<char>) -> bool {
    forall|i: int| 0 <= i < title.len() ==> is_white_space(#[trigger] title[i])
}

/// Decides whether a character is Unicode white space.
pub fn char_is_white_space(c: char) -> (r: bool)
    ensures
        r == is_white_space(c),
{
    let n: u32 = c as u32;
    (0x09 <= n && n <= 0x0D) || n == 0x20 || n == 0x85 || n == 0xA0 || n == 0x1680 || (0x2000 <= n
        && n <= 0x200A) || n == 0x2028 || n == 0x2029 || n == 0x202F || n == 0x205F || n == 0x3000
}

/// Decides whether a title is blank.
pub fn title_is_blank(title: &str) -> (r: bool)
    ensures
        r == is_blank(title@),
{
    let mut rest = title.chars();
    let ghost mut seen: int = 0;
    proof {
        axiom_spec_iter(title);
    }
    loop
        invariant
            0 <= seen <= title@.len(),
            IteratorSpec::remaining(&rest) == title@.skip(seen),
            forall|j: int| 0 <= j < seen ==> is_white_space(#[trigger] title@[j]),
        decreases title@.len() - seen,
    {
        let ghost before = rest;
        let next = rest.next();
        proof {
            next_postcondition(&before, &rest, next);
        }
        match next {
            Some(c) => {
                assert(c == title@[seen]);
                if !char_is_white_space(c) {
                    return false;
                }
                proof {
                    assert(title@.skip(seen).drop_first() =~= title@.skip(seen + 1));
                    seen = seen + 1;
                }
            },
            None => {
                assert(title@.skip(seen).len() == 0);
                return true;
            },
        }
    }
}

/// The task that a patch makes of `task`: present fields replace, absent
/// fields keep what was there; `id` and `created_at` never change.
pub open spec fn patched(task: TaskView, patch: PatchTask) -> TaskView {
    TaskView {
        id: task.id,
        title: match patch.title {
            Some(t) => t@,
            None => task.title,
        },
        completed: match patch.completed {
            Some(c) => c,
            None => task.completed,
        },
        created_at: task.created_at,
    }
}

/// Whether a patch carries a title that is blank, which no stored task may have.
pub open spec fn patch_is_invalid(patch: PatchTask) -> bool {
    match patch.title {
        Some(t) => is_blank(t@),
        None => false,
    }
}

/// Applies the present fields of a patch to a task. A patch with a blank
/// title is refused; otherwise the result is the patched task.
pub fn apply_patch(task: Task, patch: PatchTask) -> (r: Result<Task, AppError>)
    ensures
        match r {
            Ok(t) => !patch_is_invalid(patch) && t@ == patched(task@, patch),
            Err(e) => patch_is_invalid(patch) && e.is_bad_request(empty_title_text()),
        },
{
    let mut task = task;
    if let Some(title) = patch.title {
        if title_is_blank(title.as_str()) {
            return Err(AppError::empty_title());
        }
        task.title = title;
    }
    if let Some(completed) = patch.completed {
        task.completed = completed;
    }
    Ok(task)
}

/// The task that a create request makes: the given id and instant, the
/// title as sent, and not completed.
pub open spec fn fresh(id: u128, title: Seq<char>, created_at: i64) -> TaskView {
    TaskView { id, title, completed: false, created_at }
}

/// Validates a create request and builds its task with the id `id` and the
/// creation instant `now`. A blank title is refused.
pub fn new_task(payload: CreateTask, id: u128, now: i64) -> (r: Result<Task, AppError>)
    ensures
        match r {
            Ok(t) => !is_blank(payload.title@) && t@ == fresh(id, payload.title@, now),
            Err(e) => is_blank(payload.title@) && e.is_bad_request(empty_title_text()),
        },
{
    if title_is_blank(payload.title.as_str()) {
        return Err(AppError::empty_title());
    }
    Ok(Task { id, title: payload.title, completed: false, created_at: now })
}

} // verus!
