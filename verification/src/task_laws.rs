//! Properties of the task list that hold across its operations.

use vstd::prelude::*;
use crate::order::{seq_compare, lemma_compare_refl, lemma_compare_antisym, lemma_compare_trans, lemma_compare_zero_eq};
use crate::task_store::{
    TaskView, TaskStatus, TaskPriority, TaskListView, task_compare, insert_pos, sort_views, max_id,
    normal_next_id, normalized, find_task, demote_others, with_status, without_completed,
    new_task_view, lemma_find_task_bounds, lemma_max_id_bound, lemma_max_id_push,
};

verus! {

/// The tasks are in list order.
pub open spec fn tasks_sorted(s: Seq<TaskView>) -> bool {
    forall|i: int, j: int| 0 <= i < j < s.len() ==> task_compare(s[i], s[j]) <= 0
}

proof fn lemma_task_compare_antisym(a: TaskView, b: TaskView)
    ensures
        task_compare(a, b) == -task_compare(b, a),
{
    lemma_compare_antisym(b.updated_at, a.updated_at);
}

proof fn lemma_task_compare_trans(a: TaskView, b: TaskView, c: TaskView)
    requires
        task_compare(a, b) <= 0,
        task_compare(b, c) <= 0,
    ensures
        task_compare(a, c) <= 0,
{
    if a.status.rank_of() == b.status.rank_of() && b.status.rank_of() == c.status.rank_of()
        && a.priority.rank_of() == b.priority.rank_of() && b.priority.rank_of()
        == c.priority.rank_of() {
        lemma_compare_trans(c.updated_at, b.updated_at, a.updated_at);
        if seq_compare(b.updated_at, a.updated_at) == 0 {
            lemma_compare_zero_eq(b.updated_at, a.updated_at);
        }
        if seq_compare(c.updated_at, b.updated_at) == 0 {
            lemma_compare_zero_eq(c.updated_at, b.updated_at);
        }
        if seq_compare(c.updated_at, a.updated_at) == 0 {
            lemma_compare_zero_eq(c.updated_at, a.updated_at);
            lemma_compare_refl(a.updated_at);
        }
    }
}

proof fn lemma_insert_pos_split(t: Seq<TaskView>, x: TaskView)
    ensures
        0 <= insert_pos(t, x) <= t.len(),
        forall|i: int| insert_pos(t, x) <= i < t.len() ==> task_compare(t[i], x) > 0,
        insert_pos(t, x) > 0 ==> task_compare(t[insert_pos(t, x) - 1], x) <= 0,
    decreases t.len(),
{
    if t.len() > 0 && task_compare(t.last(), x) > 0 {
        lemma_insert_pos_split(t.drop_last(), x);
        assert forall|i: int| insert_pos(t, x) <= i < t.len() implies task_compare(t[i], x) > 0 by {
            if i < t.len() - 1 {
                assert(t[i] == t.drop_last()[i]);
            }
        }
        if insert_pos(t, x) > 0 {
            assert(t[insert_pos(t, x) - 1] == t.drop_last()[insert_pos(t, x) - 1]);
        }
    }
}

proof fn lemma_insert_sorted(t: Seq<TaskView>, x: TaskView)
    requires
        tasks_sorted(t),
    ensures
        tasks_sorted(t.insert(insert_pos(t, x), x)),
{
    lemma_insert_pos_split(t, x);
    let p = insert_pos(t, x);
    let r = t.insert(p, x);
    assert forall|i: int, j: int| 0 <= i < j < r.len() implies task_compare(r[i], r[j]) <= 0 by {
        if i < p && j < p {
            assert(r[i] == t[i] && r[j] == t[j]);
        } else if i < p && j == p {
            assert(r[j] == x);
            if i < p - 1 {
                lemma_task_compare_trans(t[i], t[p - 1], x);
            }
        } else if i < p && j > p {
            assert(r[i] == t[i] && r[j] == t[j - 1]);
        } else if i == p {
            assert(r[i] == x && r[j] == t[j - 1]);
            lemma_task_compare_antisym(t[j - 1], x);
        } else {
            assert(r[i] == t[i - 1] && r[j] == t[j - 1]);
        }
    }
}

proof fn lemma_insert_multiset(t: Seq<TaskView>, x: TaskView)
    ensures
        t.insert(insert_pos(t, x), x).to_multiset() == t.to_multiset().insert(x),
{
    lemma_insert_pos_split(t, x);
    vstd::seq_lib::to_multiset_insert(t, insert_pos(t, x), x);
}

/// Sorting gives the tasks in list order, with the same tasks as before.
pub proof fn law_sort_orders_and_keeps_tasks(s: Seq<TaskView>)
    ensures
        tasks_sorted(sort_views(s)),
        sort_views(s).to_multiset() == s.to_multiset(),
    decreases s.len(),
{
    if s.len() > 0 {
        law_sort_orders_and_keeps_tasks(s.drop_last());
        let t = sort_views(s.drop_last());
        lemma_insert_sorted(t, s.last());
        lemma_insert_multiset(t, s.last());
        vstd::seq_lib::to_multiset_build(s.drop_last(), s.last());
        assert(s.drop_last().push(s.last()) =~= s);
    }
}

// ---------------------------------------------------------------------
// Counting tasks
// ---------------------------------------------------------------------

/// How many tasks satisfy `p`.
pub open spec fn count_where(s: Seq<TaskView>, p: spec_fn(TaskView) -> bool) -> nat
    decreases s.len(),
{
    if s.len() == 0 {
        0
    } else {
        count_where(s.drop_last(), p) + if p(s.last()) { 1nat } else { 0nat }
    }
}

/// How many tasks carry this id.
pub open spec fn id_count(s: Seq<TaskView>, id: u64) -> nat {
    count_where(s, |t: TaskView| t.id == id)
}

/// No two tasks share an id.
pub open spec fn ids_unique(s: Seq<TaskView>) -> bool {
    forall|id: u64| #[trigger] id_count(s, id) <= 1
}

/// The number of tasks in progress.
pub open spec fn in_progress_count(s: Seq<TaskView>) -> nat {
    count_where(s, |t: TaskView| t.status == TaskStatus::InProgress)
}

/// The number of completed tasks.
pub open spec fn completed_count(s: Seq<TaskView>) -> nat {
    count_where(s, |t: TaskView| t.status == TaskStatus::Completed)
}

/// A list is well formed when its ids are distinct and all below `next_id`.
pub open spec fn list_well_formed(v: TaskListView) -> bool {
    &&& ids_unique(v.tasks)
    &&& max_id(v.tasks) < v.next_id
    &&& v.next_id >= 1
}

proof fn lemma_count_push(s: Seq<TaskView>, x: TaskView, p: spec_fn(TaskView) -> bool)
    ensures
        count_where(s.push(x), p) == count_where(s, p) + if p(x) { 1nat } else { 0nat },
{
    assert(s.push(x).drop_last() =~= s);
}

proof fn lemma_count_insert(t: Seq<TaskView>, i: int, x: TaskView, p: spec_fn(TaskView) -> bool)
    requires
        0 <= i <= t.len(),
    ensures
        count_where(t.insert(i, x), p) == count_where(t, p) + if p(x) { 1nat } else { 0nat },
    decreases t.len(),
{
    if i == t.len() {
        assert(t.insert(i, x) =~= t.push(x));
        lemma_count_push(t, x, p);
    } else {
        lemma_count_insert(t.drop_last(), i, x, p);
        assert(t.insert(i, x) =~= t.drop_last().insert(i, x).push(t.last()));
        lemma_count_push(t.drop_last().insert(i, x), t.last(), p);
    }
}

proof fn lemma_count_sort(s: Seq<TaskView>, p: spec_fn(TaskView) -> bool)
    ensures
        count_where(sort_views(s), p) == count_where(s, p),
    decreases s.len(),
{
    if s.len() > 0 {
        lemma_count_sort(s.drop_last(), p);
        let t = sort_views(s.drop_last());
        lemma_insert_pos_split(t, s.last());
        lemma_count_insert(t, insert_pos(t, s.last()), s.last(), p);
    }
}

proof fn lemma_count_update(s: Seq<TaskView>, k: int, x: TaskView, p: spec_fn(TaskView) -> bool)
    requires
        0 <= k < s.len(),
    ensures
        count_where(s.update(k, x), p) + (if p(s[k]) { 1nat } else { 0nat }) == count_where(s, p)
            + (if p(x) { 1nat } else { 0nat }),
    decreases s.len(),
{
    if k == s.len() - 1 {
        assert(s.update(k, x) =~= s.drop_last().push(x));
        lemma_count_push(s.drop_last(), x, p);
    } else {
        lemma_count_update(s.drop_last(), k, x, p);
        assert(s.update(k, x).drop_last() =~= s.drop_last().update(k, x));
    }
}

proof fn lemma_count_positive(s: Seq<TaskView>, k: int, p: spec_fn(TaskView) -> bool)
    requires
        0 <= k < s.len(),
        p(s[k]),
    ensures
        count_where(s, p) >= 1,
    decreases s.len(),
{
    if k < s.len() - 1 {
        lemma_count_positive(s.drop_last(), k, p);
    }
}

proof fn lemma_count_zero(s: Seq<TaskView>, p: spec_fn(TaskView) -> bool)
    requires
        forall|j: int| 0 <= j < s.len() ==> !p(s[j]),
    ensures
        count_where(s, p) == 0,
    decreases s.len(),
{
    if s.len() > 0 {
        lemma_count_zero(s.drop_last(), p);
    }
}

/// Counting splits by a second predicate.
proof fn lemma_count_split(s: Seq<TaskView>, p: spec_fn(TaskView) -> bool, q: spec_fn(TaskView) -> bool)
    ensures
        count_where(s, q) == count_where(s, |t: TaskView| p(t) && q(t)) + count_where(
            s,
            |t: TaskView| !p(t) && q(t),
        ),
    decreases s.len(),
{
    if s.len() > 0 {
        lemma_count_split(s.drop_last(), p, q);
    }
}

/// Changing tasks without changing what `p` says of them keeps the count.
proof fn lemma_count_same(s: Seq<TaskView>, t: Seq<TaskView>, p: spec_fn(TaskView) -> bool)
    requires
        s.len() == t.len(),
        forall|j: int| 0 <= j < s.len() ==> p(s[j]) == p(t[j]),
    ensures
        count_where(s, p) == count_where(t, p),
    decreases s.len(),
{
    if s.len() > 0 {
        lemma_count_same(s.drop_last(), t.drop_last(), p);
    }
}

proof fn lemma_count_without_completed(s: Seq<TaskView>, p: spec_fn(TaskView) -> bool)
    ensures
        count_where(without_completed(s), p) <= count_where(s, p),
        completed_count(without_completed(s)) == 0,
    decreases s.len(),
{
    if s.len() > 0 {
        lemma_count_without_completed(s.drop_last(), p);
        if s.last().status != TaskStatus::Completed {
            lemma_count_push(without_completed(s.drop_last()), s.last(), p);
            lemma_count_push(
                without_completed(s.drop_last()),
                s.last(),
                |t: TaskView| t.status == TaskStatus::Completed,
            );
        }
    }
}

// ---------------------------------------------------------------------
// Normalisation
// ---------------------------------------------------------------------

proof fn lemma_sort_of_sorted(s: Seq<TaskView>)
    requires
        tasks_sorted(s),
    ensures
        sort_views(s) == s,
    decreases s.len(),
{
    if s.len() > 0 {
        let d = s.drop_last();
        assert(tasks_sorted(d));
        lemma_sort_of_sorted(d);
        if d.len() > 0 {
            assert(task_compare(d.last(), s.last()) <= 0);
        }
        assert(d.insert(d.len() as int, s.last()) =~= s);
    }
}

proof fn lemma_max_id_sort(s: Seq<TaskView>)
    ensures
        max_id(sort_views(s)) == max_id(s),
{
    let t = sort_views(s);
    law_sort_orders_and_keeps_tasks(s);
    lemma_max_id_bound(s);
    lemma_max_id_bound(t);
    vstd::seq_lib::to_multiset_len(s);
    vstd::seq_lib::to_multiset_len(t);
    if s.len() > 0 {
        let j = choose|j: int| 0 <= j < s.len() && s[j].id == max_id(s);
        vstd::seq_lib::to_multiset_contains(s, s[j]);
        vstd::seq_lib::to_multiset_contains(t, s[j]);
        let k = choose|k: int| 0 <= k < t.len() && t[k].id == max_id(t);
        vstd::seq_lib::to_multiset_contains(t, t[k]);
        vstd::seq_lib::to_multiset_contains(s, t[k]);
    }
}

/// Normalising twice gives what normalising once gave: loading a saved list
/// and saving it again leaves it as it was.
pub proof fn law_normalize_idempotent(s: Seq<TaskView>, next_id: u64)
    requires
        max_id(s) < u64::MAX,
    ensures
        ({
            let v = normalized(s, next_id);
            normalized(v.tasks, v.next_id) == v
        }),
{
    let v = normalized(s, next_id);
    law_sort_orders_and_keeps_tasks(s);
    lemma_sort_of_sorted(sort_views(s));
    lemma_max_id_sort(s);
}

/// After normalisation `next_id` is above every id and at least 1, so the
/// next added task gets an unused id.
pub proof fn law_next_id_is_fresh(s: Seq<TaskView>, next_id: u64)
    requires
        max_id(s) < u64::MAX,
    ensures
        normal_next_id(s, next_id) > max_id(sort_views(s)),
        normal_next_id(s, next_id) >= 1,
        forall|j: int| 0 <= j < sort_views(s).len() ==> sort_views(s)[j].id < normal_next_id(s, next_id),
{
    lemma_max_id_sort(s);
    lemma_max_id_bound(sort_views(s));
}

// ---------------------------------------------------------------------
// The operations keep the list well formed
// ---------------------------------------------------------------------

proof fn lemma_unique_sort(s: Seq<TaskView>)
    requires
        ids_unique(s),
    ensures
        ids_unique(sort_views(s)),
{
    assert forall|id: u64| #[trigger] id_count(sort_views(s), id) <= 1 by {
        lemma_count_sort(s, |t: TaskView| t.id == id);
        assert(id_count(s, id) <= 1);
    }
}

proof fn lemma_normalized_well_formed(s: Seq<TaskView>, next_id: u64)
    requires
        ids_unique(s),
        max_id(s) < u64::MAX,
    ensures
        list_well_formed(normalized(s, next_id)),
{
    lemma_unique_sort(s);
    law_next_id_is_fresh(s, next_id);
}

/// Adding a task to a well-formed list keeps it well formed.
pub proof fn law_add_keeps_well_formed(
    v: TaskListView,
    description: Seq<char>,
    priority: TaskPriority,
    now: Seq<char>,
)
    requires
        list_well_formed(v),
        v.next_id < u64::MAX,
    ensures
        list_well_formed(
            normalized(
                v.tasks.push(new_task_view(v.next_id, description, priority, now)),
                (v.next_id + 1) as u64,
            ),
        ),
{
    let x = new_task_view(v.next_id, description, priority, now);
    let s = v.tasks.push(x);
    lemma_max_id_push(v.tasks, x);
    lemma_max_id_bound(v.tasks);
    assert forall|id: u64| #[trigger] id_count(s, id) <= 1 by {
        lemma_count_push(v.tasks, x, |t: TaskView| t.id == id);
        assert(id_count(v.tasks, id) <= 1);
        if id == v.next_id {
            lemma_count_zero(v.tasks, |t: TaskView| t.id == id);
        }
    }
    lemma_normalized_well_formed(s, (v.next_id + 1) as u64);
}

proof fn lemma_demote_same_ids(s: Seq<TaskView>, id: u64, now: Seq<char>)
    ensures
        demote_others(s, id, now).len() == s.len(),
        forall|j: int| 0 <= j < s.len() ==> demote_others(s, id, now)[j].id == s[j].id,
        max_id(demote_others(s, id, now)) == max_id(s),
        ids_unique(s) ==> ids_unique(demote_others(s, id, now)),
{
    let d = demote_others(s, id, now);
    crate::task_store::lemma_max_id_same_ids_pub(d, s);
    if ids_unique(s) {
        assert forall|x: u64| #[trigger] id_count(d, x) <= 1 by {
            lemma_count_same(d, s, |t: TaskView| t.id == x);
            assert(id_count(s, x) <= 1);
        }
    }
}

proof fn lemma_update_same_id(s: Seq<TaskView>, k: int, x: TaskView)
    requires
        0 <= k < s.len(),
        x.id == s[k].id,
    ensures
        max_id(s.update(k, x)) == max_id(s),
        ids_unique(s) ==> ids_unique(s.update(k, x)),
{
    crate::task_store::lemma_max_id_same_ids_pub(s.update(k, x), s);
    if ids_unique(s) {
        assert forall|y: u64| #[trigger] id_count(s.update(k, x), y) <= 1 by {
            lemma_count_same(s.update(k, x), s, |t: TaskView| t.id == y);
            assert(id_count(s, y) <= 1);
        }
    }
}

/// Changing a task's description keeps the list well formed.
pub proof fn law_update_keeps_well_formed(v: TaskListView, id: u64, description: Seq<char>, now: Seq<char>)
    requires
        list_well_formed(v),
        find_task(v.tasks, id) >= 0,
    ensures
        ({
            let k = find_task(v.tasks, id);
            list_well_formed(
                normalized(
                    v.tasks.update(k, TaskView { description, updated_at: now, ..v.tasks[k] }),
                    v.next_id,
                ),
            )
        }),
{
    lemma_find_task_bounds(v.tasks, id);
    let k = find_task(v.tasks, id);
    let x = TaskView { description, updated_at: now, ..v.tasks[k] };
    lemma_update_same_id(v.tasks, k, x);
    lemma_normalized_well_formed(v.tasks.update(k, x), v.next_id);
}

/// Changing a task's status keeps the list well formed.
pub proof fn law_set_status_keeps_well_formed(
    v: TaskListView,
    id: u64,
    status: TaskStatus,
    now: Seq<char>,
)
    requires
        list_well_formed(v),
        find_task(v.tasks, id) >= 0,
    ensures
        ({
            let k = find_task(v.tasks, id);
            let base = if status == TaskStatus::InProgress {
                demote_others(v.tasks, id, now)
            } else {
                v.tasks
            };
            list_well_formed(normalized(base.update(k, with_status(v.tasks[k], status, now)), v.next_id))
        }),
{
    lemma_find_task_bounds(v.tasks, id);
    let k = find_task(v.tasks, id);
    lemma_demote_same_ids(v.tasks, id, now);
    let base = if status == TaskStatus::InProgress {
        demote_others(v.tasks, id, now)
    } else {
        v.tasks
    };
    lemma_update_same_id(base, k, with_status(v.tasks[k], status, now));
    lemma_normalized_well_formed(base.update(k, with_status(v.tasks[k], status, now)), v.next_id);
}

/// Clearing completed tasks keeps the list well formed and leaves no
/// completed task behind.
pub proof fn law_clear_completed_keeps_well_formed(v: TaskListView)
    requires
        list_well_formed(v),
    ensures
        list_well_formed(normalized(without_completed(v.tasks), v.next_id)),
        completed_count(normalized(without_completed(v.tasks), v.next_id).tasks) == 0,
{
    let w = without_completed(v.tasks);
    assert forall|id: u64| #[trigger] id_count(w, id) <= 1 by {
        lemma_count_without_completed(v.tasks, |t: TaskView| t.id == id);
        assert(id_count(v.tasks, id) <= 1);
    }
    lemma_count_without_completed(v.tasks, |t: TaskView| t.id == 0);
    crate::task_store::lemma_without_completed_max(v.tasks);
    lemma_normalized_well_formed(w, v.next_id);
    lemma_count_sort(w, |t: TaskView| t.status == TaskStatus::Completed);
}

// ---------------------------------------------------------------------
// At most one task in progress
// ---------------------------------------------------------------------

proof fn lemma_demote_in_progress(s: Seq<TaskView>, id: u64, now: Seq<char>)
    ensures
        in_progress_count(demote_others(s, id, now)) == count_where(
            s,
            |t: TaskView| t.status == TaskStatus::InProgress && t.id == id,
        ),
    decreases s.len(),
{
    if s.len() > 0 {
        lemma_demote_in_progress(s.drop_last(), id, now);
        assert(demote_others(s, id, now).drop_last() =~= demote_others(s.drop_last(), id, now));
    }
}

/// Starting a task leaves exactly one task in progress (the ids being
/// distinct).
pub proof fn law_start_leaves_one_in_progress(v: TaskListView, id: u64, now: Seq<char>)
    requires
        ids_unique(v.tasks),
        find_task(v.tasks, id) >= 0,
        max_id(v.tasks) < u64::MAX,
    ensures
        ({
            let k = find_task(v.tasks, id);
            let base = demote_others(v.tasks, id, now);
            in_progress_count(
                normalized(
                    base.update(k, with_status(v.tasks[k], TaskStatus::InProgress, now)),
                    v.next_id,
                ).tasks,
            ) == 1
        }),
{
    lemma_find_task_bounds(v.tasks, id);
    let s = v.tasks;
    let k = find_task(s, id);
    let base = demote_others(s, id, now);
    let x = with_status(s[k], TaskStatus::InProgress, now);
    let ip = |t: TaskView| t.status == TaskStatus::InProgress;
    let ip_id = |t: TaskView| t.status == TaskStatus::InProgress && t.id == id;
    let has_id = |t: TaskView| t.id == id;
    lemma_demote_in_progress(s, id, now);
    lemma_demote_same_ids(s, id, now);
    assert(base[k] == s[k]);
    lemma_count_update(base, k, x, ip);
    lemma_count_split(s, ip, has_id);
    assert(id_count(s, id) <= 1);
    lemma_count_ext(s, has_id, |t: TaskView| t.id == id);
    assert(count_where(s, has_id) <= 1);
    assert(count_where(s, |t: TaskView| ip(t) && has_id(t)) == count_where(s, ip_id)) by {
        lemma_count_same(s, s, ip_id);
        assert forall|j: int| 0 <= j < s.len() implies (ip(s[j]) && has_id(s[j])) == ip_id(s[j]) by {}
        lemma_count_ext(s, |t: TaskView| ip(t) && has_id(t), ip_id);
    }
    if s[k].status != TaskStatus::InProgress {
        lemma_count_positive(s, k, |t: TaskView| !ip(t) && has_id(t));
    } else {
        lemma_count_positive(s, k, ip_id);
    }
    lemma_count_sort(base.update(k, x), ip);
}

proof fn lemma_count_ext(s: Seq<TaskView>, p: spec_fn(TaskView) -> bool, q: spec_fn(TaskView) -> bool)
    requires
        forall|t: TaskView| #[trigger] p(t) == q(t),
    ensures
        count_where(s, p) == count_where(s, q),
    decreases s.len(),
{
    if s.len() > 0 {
        lemma_count_ext(s.drop_last(), p, q);
    }
}

/// Setting any other status never adds a task in progress.
pub proof fn law_other_status_adds_no_in_progress(
    v: TaskListView,
    id: u64,
    status: TaskStatus,
    now: Seq<char>,
)
    requires
        status != TaskStatus::InProgress,
        find_task(v.tasks, id) >= 0,
    ensures
        ({
            let k = find_task(v.tasks, id);
            in_progress_count(
                normalized(v.tasks.update(k, with_status(v.tasks[k], status, now)), v.next_id).tasks,
            ) <= in_progress_count(v.tasks)
        }),
{
    lemma_find_task_bounds(v.tasks, id);
    let k = find_task(v.tasks, id);
    let x = with_status(v.tasks[k], status, now);
    lemma_count_update(v.tasks, k, x, |t: TaskView| t.status == TaskStatus::InProgress);
    lemma_count_sort(v.tasks.update(k, x), |t: TaskView| t.status == TaskStatus::InProgress);
}

// ---------------------------------------------------------------------
// The list order
// ---------------------------------------------------------------------

/// Where a status puts a task: tasks in progress first, then pending, then
/// completed, then cancelled.
pub open spec fn status_place(s: TaskStatus) -> int {
    match s {
        TaskStatus::InProgress => 0,
        TaskStatus::Pending => 1,
        TaskStatus::Completed => 2,
        TaskStatus::Cancelled => 3,
    }
}

/// Where a priority puts a task: high first, then medium, then low.
pub open spec fn priority_place(p: TaskPriority) -> int {
    match p {
        TaskPriority::High => 0,
        TaskPriority::Medium => 1,
        TaskPriority::Low => 2,
    }
}

/// `a` may stand before `b` in the list: by status, then by priority, then
/// the more recently updated first, then the smaller id first.
pub open spec fn listed_before(a: TaskView, b: TaskView) -> bool {
    &&& status_place(a.status) <= status_place(b.status)
    &&& status_place(a.status) == status_place(b.status) ==> priority_place(a.priority) <= priority_place(
        b.priority,
    )
    &&& status_place(a.status) == status_place(b.status) && priority_place(a.priority) == priority_place(
        b.priority,
    ) ==> seq_compare(a.updated_at, b.updated_at) >= 0
    &&& status_place(a.status) == status_place(b.status) && priority_place(a.priority) == priority_place(
        b.priority,
    ) && a.updated_at == b.updated_at ==> a.id <= b.id
}

/// The tasks are kept in list order: tasks in progress, then pending, then
/// completed, then cancelled; within a status, high priority first; within
/// a priority, the task updated most recently (the greater `updated_at`)
/// first; and among tasks updated at the same moment, the smaller id first.
pub proof fn law_list_order(s: Seq<TaskView>)
    ensures
        forall|i: int, j: int|
            0 <= i < j < sort_views(s).len() ==> listed_before(#[trigger] sort_views(s)[i], #[trigger] sort_views(s)[j]),
{
    law_sort_orders_and_keeps_tasks(s);
    let t = sort_views(s);
    assert forall|i: int, j: int| 0 <= i < j < t.len() implies listed_before(#[trigger] t[i], #[trigger] t[j]) by {
        let a = t[i];
        let b = t[j];
        assert(task_compare(a, b) <= 0);
        lemma_compare_antisym(b.updated_at, a.updated_at);
        if a.updated_at == b.updated_at {
            lemma_compare_refl(a.updated_at);
        }
    }
}

/// Of two tasks of the same status and priority, the one updated later
/// comes first once the list is normalised.
pub proof fn law_later_update_listed_first(s: Seq<TaskView>, next_id: u64, i: int, j: int)
    requires
        0 <= i < normalized(s, next_id).tasks.len(),
        0 <= j < normalized(s, next_id).tasks.len(),
        normalized(s, next_id).tasks[i].status == normalized(s, next_id).tasks[j].status,
        normalized(s, next_id).tasks[i].priority == normalized(s, next_id).tasks[j].priority,
        seq_compare(normalized(s, next_id).tasks[i].updated_at, normalized(s, next_id).tasks[j].updated_at) > 0,
    ensures
        i < j,
{
    law_list_order(s);
    let t = sort_views(s);
    if j < i {
        assert(listed_before(t[j], t[i]));
        lemma_compare_antisym(t[i].updated_at, t[j].updated_at);
    }
    if i == j {
        lemma_compare_refl(t[i].updated_at);
    }
}

} // verus!
