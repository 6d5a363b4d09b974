//! What holds of the storage operations taken together, stated over the
//! values that their contracts speak of.

use vstd::prelude::*;
use crate::models::task::{TaskView, PatchTask, Pagination, is_blank, patched, patch_is_invalid};
use crate::store::{has_id, position, newest_first, valid_records};
use crate::store::{slot_for, passes, matching, window, lemma_position_unique};
use crate::store::{lemma_inserted_index, lemma_slot_splits, lemma_insert_valid, lemma_remove_valid};

verus! {

/// The id of a created task is unique in the store: the new record is the
/// only one that carries it, the store has grown by exactly that record, and
/// an id is stored afterwards exactly if it was stored before or is the new
/// one.
pub proof fn theorem_created_id_is_unique(s: Seq<TaskView>, t: TaskView)
    requires
        valid_records(s),
        !has_id(s, t.id),
        !is_blank(t.title),
    ensures
        ({
            let after = s.insert(slot_for(s, t.created_at), t);
            &&& after.len() == s.len() + 1
            &&& forall|i: int|
                0 <= i < after.len() && (#[trigger] after[i]).id == t.id ==> i == slot_for(
                    s,
                    t.created_at,
                )
            &&& forall|id: u128| #[trigger] has_id(after, id) <==> has_id(s, id) || id == t.id
        }),
{
    lemma_slot_splits(s, t.created_at);
    let k = slot_for(s, t.created_at);
    let after = s.insert(k, t);
    assert forall|i: int| 0 <= i < after.len() && (#[trigger] after[i]).id == t.id implies i
        == k by {
        lemma_inserted_index(s, k, t, i);
    }
    assert forall|id: u128| #[trigger] has_id(after, id) <==> has_id(s, id) || id == t.id by {
        if has_id(after, id) {
            let i = position(after, id);
            lemma_inserted_index(s, k, t, i);
            if i < k {
                assert(s[i].id == id);
            } else if i > k {
                assert(s[i - 1].id == id);
            }
        }
        if has_id(s, id) {
            let i = position(s, id);
            let j = if i < k {
                i
            } else {
                i + 1
            };
            lemma_inserted_index(s, k, t, j);
            assert(after[j].id == id);
        }
        if id == t.id {
            lemma_inserted_index(s, k, t, k);
            assert(after[k].id == id);
        }
    }
}

/// A lookup that follows a creation finds the created task, field for field.
pub proof fn theorem_get_after_create(s: Seq<TaskView>, t: TaskView)
    requires
        valid_records(s),
        !has_id(s, t.id),
        !is_blank(t.title),
    ensures
        ({
            let after = s.insert(slot_for(s, t.created_at), t);
            has_id(after, t.id) && after[position(after, t.id)] == t
        }),
{
    lemma_slot_splits(s, t.created_at);
    lemma_insert_valid(s, t);
    let k = slot_for(s, t.created_at);
    let after = s.insert(k, t);
    lemma_inserted_index(s, k, t, k);
    lemma_position_unique(after, t.id, k);
}

/// With a completion filter the list holds exactly the records whose flag has
/// the asked value, in the order of the store.
pub proof fn theorem_filter_is_exact(s: Seq<TaskView>, completed: bool)
    ensures
        matching(s, Some(completed)) == s.filter(|t: TaskView| t.completed == completed),
        forall|t: TaskView| #[trigger]
            matching(s, Some(completed)).contains(t) <==> s.contains(t) && t.completed
                == completed,
    decreases s.len(),
{
    let keep = |t: TaskView| t.completed == completed;
    let m = matching(s, Some(completed));
    reveal(Seq::filter);
    if s.len() > 0 {
        let d = s.drop_last();
        let md = matching(d, Some(completed));
        theorem_filter_is_exact(d, completed);
        assert forall|t: TaskView| #[trigger]
            m.contains(t) <==> s.contains(t) && t.completed == completed by {
            if m.contains(t) {
                let i = choose|i: int| 0 <= i < m.len() && m[i] == t;
                if i < md.len() {
                    assert(md[i] == t);
                    assert(md.contains(t));
                    let j = choose|j: int| 0 <= j < d.len() && d[j] == t;
                    assert(s[j] == t);
                } else {
                    assert(m == md.push(s.last()));
                    assert(s[s.len() - 1] == t);
                }
                assert(s.contains(t));
                assert(t.completed == completed);
            }
            if s.contains(t) && t.completed == completed {
                let j = choose|j: int| 0 <= j < s.len() && s[j] == t;
                if j < d.len() {
                    assert(d[j] == t);
                    assert(d.contains(t));
                    assert(md.contains(t));
                    let i = choose|i: int| 0 <= i < md.len() && md[i] == t;
                    assert(m[i] == t);
                } else {
                    assert(t == s.last());
                    assert(m == md.push(t));
                    assert(m[m.len() - 1] == t);
                }
                assert(m.contains(t));
            }
        }
    }
    assert(m =~= s.filter(keep));
}

/// Without a filter the list holds all records.
pub proof fn theorem_no_filter_lists_all(s: Seq<TaskView>)
    ensures
        matching(s, None) == s,
    decreases s.len(),
{
    if s.len() > 0 {
        theorem_no_filter_lists_all(s.drop_last());
        assert(s.drop_last().push(s.last()) =~= s);
    }
    assert(matching(s, None) =~= s);
}

/// Every record that a filter lets through stands in the records filtered,
/// and passes the filter.
pub proof fn lemma_matching_is_within(s: Seq<TaskView>, filter: Option<bool>)
    ensures
        matching(s, filter).len() <= s.len(),
        forall|i: int|
            0 <= i < matching(s, filter).len() ==> s.contains(#[trigger] matching(s, filter)[i])
                && passes(matching(s, filter)[i], filter),
    decreases s.len(),
{
    if s.len() > 0 {
        let d = s.drop_last();
        let m = matching(s, filter);
        let md = matching(d, filter);
        lemma_matching_is_within(d, filter);
        assert forall|i: int| 0 <= i < m.len() implies s.contains(#[trigger] m[i]) && passes(
            m[i],
            filter,
        ) by {
            if i < md.len() {
                assert(m[i] == md[i]);
                assert(d.contains(md[i]));
                let j = choose|j: int| 0 <= j < d.len() && d[j] == md[i];
                assert(s[j] == m[i]);
            } else {
                assert(s[s.len() - 1] == m[i]);
            }
        }
    }
}

/// A listing of a store whose records stand newest first is itself newest
/// first, whatever the filter and the pagination.
pub proof fn theorem_listing_is_newest_first(
    s: Seq<TaskView>,
    filter: Option<bool>,
    pagination: Pagination,
)
    requires
        newest_first(s),
    ensures
        newest_first(matching(s, filter)),
        newest_first(window(matching(s, filter), pagination)),
    decreases s.len(),
{
    let m = matching(s, filter);
    if s.len() > 0 {
        let d = s.drop_last();
        let md = matching(d, filter);
        assert forall|i: int, j: int| 0 <= i <= j < d.len() implies (#[trigger] d[i]).created_at >= (
        #[trigger] d[j]).created_at by {
            assert(d[i] == s[i] && d[j] == s[j]);
        }
        theorem_listing_is_newest_first(d, filter, pagination);
        lemma_matching_is_within(d, filter);
        assert forall|i: int, j: int| 0 <= i <= j < m.len() implies (#[trigger] m[i]).created_at >= (
        #[trigger] m[j]).created_at by {
            if j < md.len() {
                assert(m[i] == md[i] && m[j] == md[j]);
            } else if i < md.len() {
                assert(m[i] == md[i]);
                assert(d.contains(md[i]));
                let k = choose|k: int| 0 <= k < d.len() && d[k] == md[i];
                assert(s[k] == m[i]);
                assert(s[k].created_at >= s[s.len() - 1].created_at);
            }
        }
    }
    let w = window(m, pagination);
    assert forall|i: int, j: int| 0 <= i <= j < w.len() implies (#[trigger] w[i]).created_at >= (
    #[trigger] w[j]).created_at by {
        let start = crate::store::window_start(m.len() as int, pagination);
        assert(w[i] == m[start + i]);
        assert(w[j] == m[start + j]);
    }
}

/// A patch that carries only a completion flag is valid, sets that flag, and
/// leaves the id, the title and the creation instant as they were.
pub proof fn theorem_patch_completed_only(t: TaskView, patch: PatchTask, completed: bool)
    requires
        patch.title is None,
        patch.completed == Some(completed),
    ensures
        !patch_is_invalid(patch),
        patched(t, patch).completed == completed,
        patched(t, patch).title == t.title,
        patched(t, patch).created_at == t.created_at,
        patched(t, patch).id == t.id,
{
}

/// Once a task is deleted its id is gone: a second deletion of the same id
/// finds nothing. The store that is left is still valid and holds one record
/// less.
pub proof fn theorem_delete_is_final(s: Seq<TaskView>, id: u128)
    requires
        valid_records(s),
        has_id(s, id),
    ensures
        !has_id(s.remove(position(s, id)), id),
        valid_records(s.remove(position(s, id))),
        s.remove(position(s, id)).len() == s.len() - 1,
{
    let p = position(s, id);
    let after = s.remove(p);
    lemma_remove_valid(s, p);
    if has_id(after, id) {
        let a = position(after, id);
        let b = if a < p {
            a
        } else {
            a + 1
        };
        assert(after[a] == s[b]);
        if b < p {
            assert(s[b].id != s[p].id);
        } else {
            assert(s[p].id != s[b].id);
        }
    }
}

} // verus!
