//! The in-memory storage backend: the canonical set of tasks, kept newest
//! first, with the five storage operations.
//!
//! The store's value is a `Seq<TaskView>`. Three facts hold of it at all
//! times: no two records share an id, no record has a blank title, and the
//! records stand in descending order of `created_at`.

use vstd::prelude::*;
use crate::errors::{AppError, not_found_text, empty_title_text};
use crate::models::task::{Task, TaskView, PatchTask, TaskFilter, Pagination};
use crate::models::task::{task_views, is_blank, apply_patch, patched, patch_is_invalid};

verus! {

/// Whether some record of `s` has the id `id`.
pub open spec fn has_id(s: Seq<TaskView>, id: u128) -> bool {
    exists|i: int| 0 <= i < s.len() && (#[trigger] s[i]).id == id
}

/// An index at which `s` holds the id `id`; the only one where ids are distinct.
pub open spec fn position(s: Seq<TaskView>, id: u128) -> int {
    choose|i: int| 0 <= i < s.len() && (#[trigger] s[i]).id == id
}

/// No two records share an id.
pub open spec fn distinct_ids(s: Seq<TaskView>) -> bool {
    forall|i: int, j: int| 0 <= i < j < s.len() ==> (#[trigger] s[i]).id != (#[trigger] s[j]).id
}

/// The records stand in descending order of `created_at`.
pub open spec fn newest_first(s: Seq<TaskView>) -> bool {
    forall|i: int, j: int|
        0 <= i <= j < s.len() ==> (#[trigger] s[i]).created_at >= (#[trigger] s[j]).created_at
}

/// No record has a blank title.
pub open spec fn all_titled(s: Seq<TaskView>) -> bool {
    forall|i: int| 0 <= i < s.len() ==> !is_blank((#[trigger] s[i]).title)
}

/// What holds of the records of a store at all times.
pub open spec fn valid_records(s: Seq<TaskView>) -> bool {
    distinct_ids(s) && newest_first(s) && all_titled(s)
}

/// Where a record created at `created_at` enters `s`: behind every record
/// that is strictly newer, and in front of all the others.
pub open spec fn slot_for(s: Seq<TaskView>, created_at: i64) -> int
    decreases s.len(),
{
    if s.len() == 0 {
        0
    } else if s.last().created_at > created_at {
        s.len() as int
    } else {
        slot_for(s.drop_last(), created_at)
    }
}

/// Whether a record passes the completion filter. No filter passes all.
pub open spec fn passes(t: TaskView, filter: Option<bool>) -> bool {
    match filter {
        Some(c) => t.completed == c,
        None => true,
    }
}

/// The records of `s` that pass the filter, in the order of `s`.
pub open spec fn matching(s: Seq<TaskView>, filter: Option<bool>) -> Seq<TaskView>
    decreases s.len(),
{
    if s.len() == 0 {
        Seq::empty()
    } else if passes(s.last(), filter) {
        matching(s.drop_last(), filter).push(s.last())
    } else {
        matching(s.drop_last(), filter)
    }
}

/// The first index of the window that a pagination cuts out of `len` records.
pub open spec fn window_start(len: int, p: Pagination) -> int {
    match p.offset {
        Some(o) => if o <= len { o as int } else { len },
        None => 0,
    }
}

/// One past the last index of that window.
pub open spec fn window_end(len: int, p: Pagination) -> int {
    match p.limit {
        Some(l) => if window_start(len, p) + l <= len { window_start(len, p) + l } else { len },
        None => len,
    }
}

/// The window of `s` under a pagination: `offset` records are skipped, then at
/// most `limit` are kept.
pub open spec fn window(s: Seq<TaskView>, p: Pagination) -> Seq<TaskView> {
    s.subrange(window_start(s.len() as int, p), window_end(s.len() as int, p))
}

/// Where ids are distinct, the index that holds an id is `position` of it.
pub proof fn lemma_position_unique(s: Seq<TaskView>, id: u128, i: int)
    requires
        distinct_ids(s),
        0 <= i < s.len(),
        s[i].id == id,
    ensures
        has_id(s, id),
        position(s, id) == i,
{
    let p = position(s, id);
    assert(0 <= p < s.len() && s[p].id == id);
    if p < i {
        assert(s[p].id != s[i].id);
    } else if i < p {
        assert(s[i].id != s[p].id);
    }
}

/// An index that splits `s` into strictly newer records and the rest is the
/// slot of `created_at`.
pub proof fn lemma_slot_is_split(s: Seq<TaskView>, created_at: i64, i: int)
    requires
        0 <= i <= s.len(),
        forall|j: int| 0 <= j < i ==> (#[trigger] s[j]).created_at > created_at,
        forall|j: int| i <= j < s.len() ==> (#[trigger] s[j]).created_at <= created_at,
    ensures
        slot_for(s, created_at) == i,
    decreases s.len(),
{
    if s.len() == 0 {
    } else if s.last().created_at > created_at {
        if i < s.len() {
            assert(s[s.len() - 1].created_at <= created_at);
        }
    } else {
        if i == s.len() {
            assert(s[i - 1].created_at > created_at);
        }
        let t = s.drop_last();
        assert forall|j: int| 0 <= j < i implies (#[trigger] t[j]).created_at > created_at by {
            assert(t[j] == s[j]);
        }
        assert forall|j: int| i <= j < t.len() implies (#[trigger] t[j]).created_at
            <= created_at by {
            assert(t[j] == s[j]);
        }
        lemma_slot_is_split(t, created_at, i);
    }
}

/// What stands at each index after an insertion.
pub proof fn lemma_inserted_index(s: Seq<TaskView>, i: int, t: TaskView, a: int)
    requires
        0 <= i <= s.len(),
        0 <= a <= s.len(),
    ensures
        a < i ==> s.insert(i, t)[a] == s[a],
        a == i ==> s.insert(i, t)[a] == t,
        a > i ==> s.insert(i, t)[a] == s[a - 1],
{
}

/// In records that stand newest first, the slot of an instant splits them:
/// in front of it every record is strictly newer, from it on none is.
pub proof fn lemma_slot_splits(s: Seq<TaskView>, created_at: i64)
    requires
        newest_first(s),
    ensures
        0 <= slot_for(s, created_at) <= s.len(),
        forall|j: int|
            0 <= j < slot_for(s, created_at) ==> (#[trigger] s[j]).created_at > created_at,
        forall|j: int|
            slot_for(s, created_at) <= j < s.len() ==> (#[trigger] s[j]).created_at <= created_at,
    decreases s.len(),
{
    if s.len() == 0 {
    } else if s.last().created_at > created_at {
        assert forall|j: int| 0 <= j < s.len() implies (#[trigger] s[j]).created_at
            > created_at by {
            assert(s[j].created_at >= s[s.len() - 1].created_at);
        }
    } else {
        let t = s.drop_last();
        assert forall|i: int, j: int| 0 <= i <= j < t.len() implies (#[trigger] t[i]).created_at >= (
        #[trigger] t[j]).created_at by {
            assert(t[i] == s[i] && t[j] == s[j]);
        }
        lemma_slot_splits(t, created_at);
        let k = slot_for(t, created_at);
        assert forall|j: int| 0 <= j < k implies (#[trigger] s[j]).created_at > created_at by {
            assert(t[j] == s[j]);
        }
        assert forall|j: int| k <= j < s.len() implies (#[trigger] s[j]).created_at
            <= created_at by {
            if j < t.len() {
                assert(t[j] == s[j]);
            }
        }
    }
}

/// A created task enters a valid store without breaking it: ids stay
/// distinct, titles stay non-blank, and the records stay newest first.
pub proof fn lemma_insert_valid(s: Seq<TaskView>, t: TaskView)
    requires
        valid_records(s),
        !has_id(s, t.id),
        !is_blank(t.title),
    ensures
        valid_records(s.insert(slot_for(s, t.created_at), t)),
{
    lemma_slot_splits(s, t.created_at);
    let k = slot_for(s, t.created_at);
    let after = s.insert(k, t);
    assert forall|a: int, b: int| 0 <= a < b < after.len() implies (#[trigger] after[a]).id != (
    #[trigger] after[b]).id by {
        lemma_inserted_index(s, k, t, a);
        lemma_inserted_index(s, k, t, b);
    }
    assert forall|a: int, b: int| 0 <= a <= b < after.len() implies (#[trigger] after[a]).created_at
        >= (#[trigger] after[b]).created_at by {
        lemma_inserted_index(s, k, t, a);
        lemma_inserted_index(s, k, t, b);
    }
    assert forall|a: int| 0 <= a < after.len() implies !is_blank((#[trigger] after[a]).title) by {
        lemma_inserted_index(s, k, t, a);
    }
}

/// A record may be replaced by one with the same id and creation instant and
/// a title that is not blank: the records stay valid.
pub proof fn lemma_update_valid(s: Seq<TaskView>, i: int, t: TaskView)
    requires
        valid_records(s),
        0 <= i < s.len(),
        t.id == s[i].id,
        t.created_at == s[i].created_at,
        !is_blank(t.title),
    ensures
        valid_records(s.update(i, t)),
{
    let after = s.update(i, t);
    assert forall|a: int, b: int| 0 <= a < b < after.len() implies (#[trigger] after[a]).id != (
    #[trigger] after[b]).id by {
        assert(after[a].id == s[a].id);
        assert(after[b].id == s[b].id);
    }
    assert forall|a: int, b: int| 0 <= a <= b < after.len() implies (#[trigger] after[a]).created_at
        >= (#[trigger] after[b]).created_at by {
        assert(after[a].created_at == s[a].created_at);
        assert(after[b].created_at == s[b].created_at);
    }
    assert forall|a: int| 0 <= a < after.len() implies !is_blank((#[trigger] after[a]).title) by {
        if a != i {
            assert(after[a] == s[a]);
        }
    }
}

/// Removing a record leaves the others valid, each where it was or one
/// place further to the front.
pub proof fn lemma_remove_valid(s: Seq<TaskView>, i: int)
    requires
        valid_records(s),
        0 <= i < s.len(),
    ensures
        valid_records(s.remove(i)),
        s.remove(i).len() == s.len() - 1,
        forall|a: int|
            0 <= a < s.len() - 1 ==> #[trigger] s.remove(i)[a] == s[if a < i {
                a
            } else {
                a + 1
            }],
{
    let after = s.remove(i);
    assert forall|a: int| 0 <= a < after.len() implies #[trigger] after[a] == s[if a < i {
        a
    } else {
        a + 1
    }] by {}
    assert forall|a: int, b: int| 0 <= a < b < after.len() implies (#[trigger] after[a]).id != (
    #[trigger] after[b]).id by {
        assert(after[a] == s[if a < i { a } else { a + 1 }]);
        assert(after[b] == s[if b < i { b } else { b + 1 }]);
    }
    assert forall|a: int, b: int| 0 <= a <= b < after.len() implies (#[trigger] after[a]).created_at
        >= (#[trigger] after[b]).created_at by {
        assert(after[a] == s[if a < i { a } else { a + 1 }]);
        assert(after[b] == s[if b < i { b } else { b + 1 }]);
    }
    assert forall|a: int| 0 <= a < after.len() implies !is_blank((#[trigger] after[a]).title) by {
        assert(after[a] == s[if a < i { a } else { a + 1 }]);
    }
}

/// The in-memory store of tasks.
pub struct TaskStore {
    tasks: Vec<Task>,
}

impl View for TaskStore {
    type V = Seq<TaskView>;

    closed spec fn view(&self) -> Seq<TaskView> {
        task_views(self.tasks@)
    }
}

impl TaskStore {
    /// The invariant that every store carries: its records are valid.
    #[verifier::type_invariant]
    closed spec fn inv(&self) -> bool {
        valid_records(task_views(self.tasks@))
    }

    /// That the records are valid. Every store is.
    pub open spec fn wf(&self) -> bool {
        valid_records(self@)
    }

    /// Makes an empty store.
    pub fn new() -> (r: TaskStore)
        ensures
            r@ == Seq::<TaskView>::empty(),
            r.wf(),
    {
        let r = TaskStore { tasks: Vec::new() };
        assert(r@ =~= Seq::<TaskView>::empty());
        r
    }

    /// Recalls that the records of this store are valid. It does nothing when
    /// run; it hands the store's invariant to the caller's proof.
    pub fn validity(&self)
        ensures
            self.wf(),
    {
        proof {
            use_type_invariant(&*self);
        }
    }

    /// Returns the number of records.
    pub fn len(&self) -> (r: usize)
        ensures
            r == self@.len(),
            self.wf(),
    {
        proof {
            use_type_invariant(&*self);
        }
        self.tasks.len()
    }

    /// Finds the index of the record with the id `id`.
    fn find(&self, id: u128) -> (r: Option<usize>)
        ensures
            match r {
                Some(i) => i < self@.len() && self@[i as int].id == id && has_id(self@, id),
                None => !has_id(self@, id),
            },
    {
        let n: usize = self.tasks.len();
        let mut i: usize = 0;
        while i < n
            invariant
                n == self.tasks@.len(),
                self@.len() == n,
                i <= n,
                forall|j: int| 0 <= j < i ==> (#[trigger] self@[j]).id != id,
            decreases n - i,
        {
            if self.tasks[i].id == id {
                assert(self@[i as int].id == id);
                return Some(i);
            }
            i = i + 1;
        }
        None
    }

    /// Says whether a record with the id `id` is stored.
    pub fn contains(&self, id: u128) -> (r: bool)
        ensures
            r == has_id(self@, id),
    {
        self.find(id).is_some()
    }

    /// Stores a fully populated record. The caller has made sure that the id
    /// is not in use and that the title is not blank. The record enters behind
    /// every strictly newer record and in front of all the others.
    pub fn insert(&mut self, task: Task) -> (r: Result<(), AppError>)
        requires
            !has_id(old(self)@, task.id),
            !is_blank(task.title@),
        ensures
            r is Ok,
            final(self).wf(),
            final(self)@ == old(self)@.insert(slot_for(old(self)@, task.created_at), task@),
    {
        proof {
            use_type_invariant(&*self);
        }
        let n: usize = self.tasks.len();
        let mut i: usize = 0;
        while i < n && self.tasks[i].created_at > task.created_at
            invariant
                n == self.tasks@.len(),
                self@.len() == n,
                i <= n,
                *self == *old(self),
                newest_first(self@),
                forall|j: int| 0 <= j < i ==> (#[trigger] self@[j]).created_at > task.created_at,
            decreases n - i,
        {
            i = i + 1;
        }
        proof {
            let before = self@;
            if i < n {
                assert(before[i as int].created_at <= task.created_at);
                assert forall|j: int| i <= j < before.len() implies (#[trigger] before[j]).created_at
                    <= task.created_at by {
                    assert(before[i as int].created_at >= before[j].created_at);
                }
            }
            lemma_slot_is_split(before, task.created_at, i as int);
            lemma_insert_valid(before, task@);
            assert(task_views(self.tasks@.insert(i as int, task)) =~= before.insert(
                i as int,
                task@,
            ));
        }
        let mut tasks: Vec<Task> = Vec::new();
        std::mem::swap(&mut tasks, &mut self.tasks);
        tasks.insert(i, task);
        self.tasks = tasks;
        Ok(())
    }

    /// Returns the records that pass the filter, newest first, cut to the
    /// window of the pagination. Nothing matching gives an empty result.
    pub fn list(&self, filter: &TaskFilter, pagination: &Pagination) -> (r: Vec<Task>)
        ensures
            task_views(r@) == window(matching(self@, filter.completed), *pagination),
    {
        let n: usize = self.tasks.len();
        let mut out: Vec<Task> = Vec::new();
        let mut seen: usize = 0;
        let mut i: usize = 0;
        assert(self@.take(0) =~= Seq::<TaskView>::empty());
        assert(task_views(out@) =~= window(Seq::<TaskView>::empty(), *pagination));
        while i < n
            invariant
                n == self.tasks@.len(),
                self@.len() == n,
                i <= n,
                seen <= i,
                seen == matching(self@.take(i as int), filter.completed).len(),
                task_views(out@) == window(
                    matching(self@.take(i as int), filter.completed),
                    *pagination,
                ),
            decreases n - i,
        {
            let task = &self.tasks[i];
            let ghost so_far = matching(self@.take(i as int), filter.completed);
            let ghost kept = task_views(out@);
            proof {
                assert(self@.take(i + 1).drop_last() =~= self@.take(i as int));
                assert(self@.take(i + 1).last() == task@);
            }
            let pass = match filter.completed {
                Some(c) => task.completed == c,
                None => true,
            };
            if pass {
                let reached = match pagination.offset {
                    Some(o) => seen as u64 >= o,
                    None => true,
                };
                let room = match pagination.limit {
                    Some(l) => (out.len() as u64) < l,
                    None => true,
                };
                if reached && room {
                    let copy = task.clone();
                    out.push(copy);
                    assert(task_views(out@) =~= kept.push(task@));
                }
                seen = seen + 1;
                assert(task_views(out@) =~= window(so_far.push(task@), *pagination));
            }
            i = i + 1;
        }
        assert(self@.take(n as int) =~= self@);
        out
    }

    /// Returns the record with the id `id`, or `None` where there is none.
    pub fn get(&self, id: u128) -> (r: Option<Task>)
        ensures
            self.wf(),
            match r {
                Some(t) => has_id(self@, id) && t@ == self@[position(self@, id)],
                None => !has_id(self@, id),
            },
    {
        proof {
            use_type_invariant(&*self);
        }
        match self.find(id) {
            Some(i) => {
                proof {
                    lemma_position_unique(self@, id, i as int);
                }
                Some(self.tasks[i].clone())
            },
            None => None,
        }
    }

    /// Applies the present fields of a patch to the record with the id `id`
    /// and returns the record as it then stands. A missing id is reported
    /// first, a blank title second; either way the store stays as it was.
    pub fn update(&mut self, id: u128, patch: PatchTask) -> (r: Result<Task, AppError>)
        ensures
            final(self).wf(),
            match r {
                Ok(t) => {
                    &&& has_id(old(self)@, id)
                    &&& !patch_is_invalid(patch)
                    &&& t@ == patched(old(self)@[position(old(self)@, id)], patch)
                    &&& final(self)@ == old(self)@.update(position(old(self)@, id), t@)
                },
                Err(e) => {
                    &&& final(self)@ == old(self)@
                    &&& if has_id(old(self)@, id) {
                        patch_is_invalid(patch) && e.is_bad_request(empty_title_text())
                    } else {
                        e.is_not_found(not_found_text())
                    }
                },
            },
    {
        proof {
            use_type_invariant(&*self);
        }
        let i: usize = match self.find(id) {
            Some(i) => i,
            None => {
                return Err(AppError::task_not_found());
            },
        };
        proof {
            lemma_position_unique(self@, id, i as int);
        }
        let next = match apply_patch(self.tasks[i].clone(), patch) {
            Ok(t) => t,
            Err(e) => {
                return Err(e);
            },
        };
        let copy = next.clone();
        proof {
            let before = self@;
            assert(!is_blank(next@.title)) by {
                if patch.title is None {
                    assert(next@.title == before[i as int].title);
                }
            }
            lemma_update_valid(before, i as int, next@);
            assert(task_views(self.tasks@.update(i as int, next)) =~= before.update(
                i as int,
                next@,
            ));
        }
        let mut tasks: Vec<Task> = Vec::new();
        std::mem::swap(&mut tasks, &mut self.tasks);
        tasks.set(i, next);
        self.tasks = tasks;
        Ok(copy)
    }

    /// Removes the record with the id `id`; reports a missing id and then
    /// leaves the store as it was.
    pub fn delete(&mut self, id: u128) -> (r: Result<(), AppError>)
        ensures
            final(self).wf(),
            match r {
                Ok(_) => has_id(old(self)@, id) && final(self)@ == old(self)@.remove(
                    position(old(self)@, id),
                ),
                Err(e) => !has_id(old(self)@, id) && final(self)@ == old(self)@ && e.is_not_found(
                    not_found_text(),
                ),
            },
    {
        proof {
            use_type_invariant(&*self);
        }
        match self.find(id) {
            Some(i) => {
                proof {
                    let before = self@;
                    lemma_position_unique(before, id, i as int);
                    lemma_remove_valid(before, i as int);
                    assert(task_views(self.tasks@.remove(i as int)) =~= before.remove(i as int));
                }
                let mut tasks: Vec<Task> = Vec::new();
                std::mem::swap(&mut tasks, &mut self.tasks);
                let _ = tasks.remove(i);
                self.tasks = tasks;
                Ok(())
            },
            None => Err(AppError::task_not_found()),
        }
    }
}

} // verus!
