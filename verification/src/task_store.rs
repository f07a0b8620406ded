//! The persistent task list kept in `.sacode/tasks.json`.
//!
//! Reading and writing the file happens outside this module; here are the
//! rules that every operation applies to the loaded list: tasks are kept
//! sorted (in-progress first, then pending, completed, cancelled; higher
//! priority first; most recently updated first; lower id first), `next_id`
//! always exceeds every id, and at most one task is in progress.

use vstd::prelude::*;
use crate::order::{seq_compare, compare_str, lemma_compare_refl, lemma_compare_antisym, lemma_compare_trans};
use crate::text::{trim, trim_str, decimal, u64_to_string};

verus! {

/// The file, relative to the working directory, that holds the task list.
pub const TASKS_FILE: &'static str = ".sacode/tasks.json";

#[derive(Debug, Clone, Copy, PartialEq, Eq, Structural)]
pub enum TaskStatus {
    Pending,
    InProgress,
    Completed,
    Cancelled,
}

#[derive(Debug, Clone, Copy, PartialEq, Eq, Structural)]
pub enum TaskPriority {
    Low,
    Medium,
    High,
}

impl Default for TaskPriority {
    fn default() -> (r: Self)
        ensures
            r == TaskPriority::Medium,
    {
        TaskPriority::Medium
    }
}

#[derive(Debug)]
pub struct PersistentTask {
    pub id: u64,
    pub description: String,
    pub status: TaskStatus,
    pub priority: TaskPriority,
    pub created_at: String,
    pub updated_at: String,
    pub completed_at: Option<String>,
    pub tags: Vec<String>,
    pub notes: Option<String>,
}

/// The mathematical value of a task: its strings as character sequences.
pub ghost struct TaskView {
    pub id: u64,
    pub description: Seq<char>,
    pub status: TaskStatus,
    pub priority: TaskPriority,
    pub created_at: Seq<char>,
    pub updated_at: Seq<char>,
    pub completed_at: Option<Seq<char>>,
    pub tags: Seq<Seq<char>>,
    pub notes: Option<Seq<char>>,
}

/// The view of an optional string.
pub open spec fn opt_view(o: Option<String>) -> Option<Seq<char>> {
    match o {
        Some(s) => Some(s@),
        None => None,
    }
}

/// The views of a list of strings.
pub open spec fn strings_view(v: Seq<String>) -> Seq<Seq<char>> {
    v.map_values(|s: String| s@)
}

impl View for PersistentTask {
    type V = TaskView;

    open spec fn view(&self) -> TaskView {
        TaskView {
            id: self.id,
            description: self.description@,
            status: self.status,
            priority: self.priority,
            created_at: self.created_at@,
            updated_at: self.updated_at@,
            completed_at: opt_view(self.completed_at),
            tags: strings_view(self.tags@),
            notes: opt_view(self.notes),
        }
    }
}

/// The views of a list of tasks.
pub open spec fn tasks_view(v: Seq<PersistentTask>) -> Seq<TaskView> {
    v.map_values(|t: PersistentTask| t@)
}

#[derive(Debug)]
pub struct TaskStoreData {
    pub tasks: Vec<PersistentTask>,
    pub next_id: u64,
}

/// Where the task list lives.
#[derive(Debug)]
pub struct TaskStore {
    path: String,
}

/// Why an operation on the task list was refused.
#[derive(Debug, Clone, Copy, PartialEq, Eq, Structural)]
pub enum TaskStoreError {
    EmptyDescription,
    NotFound(u64),
}

impl TaskStoreError {
    /// The message the command line shows for this error.
    pub fn message(&self) -> (r: String)
        ensures
            r@ == match self {
                TaskStoreError::EmptyDescription => "task description cannot be empty"@,
                TaskStoreError::NotFound(id) => "task not found: "@ + decimal(*id as nat),
            },
    {
        match self {
            TaskStoreError::EmptyDescription => String::from_str("task description cannot be empty"),
            TaskStoreError::NotFound(id) => {
                let mut s = String::from_str("task not found: ");
                let n = u64_to_string(*id);
                s.append(n.as_str());
                s
            },
        }
    }
}

// ---------------------------------------------------------------------
// Labels and ranks
// ---------------------------------------------------------------------

impl TaskStatus {
    pub open spec fn label_text(self) -> Seq<char> {
        match self {
            TaskStatus::Pending => "PENDING"@,
            TaskStatus::InProgress => "IN_PROGRESS"@,
            TaskStatus::Completed => "COMPLETED"@,
            TaskStatus::Cancelled => "CANCELLED"@,
        }
    }

    /// Position in the list: in progress, pending, completed, cancelled.
    pub open spec fn rank_of(self) -> u8 {
        match self {
            TaskStatus::InProgress => 0,
            TaskStatus::Pending => 1,
            TaskStatus::Completed => 2,
            TaskStatus::Cancelled => 3,
        }
    }

    pub fn label(self) -> (r: &'static str)
        ensures
            r@ == self.label_text(),
    {
        match self {
            TaskStatus::Pending => "PENDING",
            TaskStatus::InProgress => "IN_PROGRESS",
            TaskStatus::Completed => "COMPLETED",
            TaskStatus::Cancelled => "CANCELLED",
        }
    }

    pub fn rank(self) -> (r: u8)
        ensures
            r == self.rank_of(),
    {
        match self {
            TaskStatus::InProgress => 0,
            TaskStatus::Pending => 1,
            TaskStatus::Completed => 2,
            TaskStatus::Cancelled => 3,
        }
    }
}

impl TaskPriority {
    pub open spec fn label_text(self) -> Seq<char> {
        match self {
            TaskPriority::Low => "LOW"@,
            TaskPriority::Medium => "MEDIUM"@,
            TaskPriority::High => "HIGH"@,
        }
    }

    /// Position in the list: high, medium, low.
    pub open spec fn rank_of(self) -> u8 {
        match self {
            TaskPriority::High => 0,
            TaskPriority::Medium => 1,
            TaskPriority::Low => 2,
        }
    }

    pub fn label(self) -> (r: &'static str)
        ensures
            r@ == self.label_text(),
    {
        match self {
            TaskPriority::Low => "LOW",
            TaskPriority::Medium => "MEDIUM",
            TaskPriority::High => "HIGH",
        }
    }

    pub fn rank(self) -> (r: u8)
        ensures
            r == self.rank_of(),
    {
        match self {
            TaskPriority::High => 0,
            TaskPriority::Medium => 1,
            TaskPriority::Low => 2,
        }
    }
}

// ---------------------------------------------------------------------
// Copies
// ---------------------------------------------------------------------

/// A copy of a list of strings.
pub fn copy_strings(v: &Vec<String>) -> (r: Vec<String>)
    ensures
        strings_view(r@) == strings_view(v@),
{
    let mut r: Vec<String> = Vec::new();
    let mut i: usize = 0;
    while i < v.len()
        invariant
            i <= v@.len(),
            strings_view(r@) == strings_view(v@.take(i as int)),
        decreases v@.len() - i,
    {
        let ghost prev = r@;
        let c = v[i].clone();
        r.push(c);
        assert(r@ == prev.push(c));
        assert(c@ == v@[i as int]@);
        proof {
            prev.lemma_push_map_commute(|s: String| s@, c);
            v@.lemma_map_take_succ(|s: String| s@, i as int);
        }
        i = i + 1;
    }
    assert(v@.take(v@.len() as int) =~= v@);
    r
}

/// A copy of an optional string.
pub fn copy_opt_string(v: &Option<String>) -> (r: Option<String>)
    ensures
        opt_view(r) == opt_view(*v),
{
    match v {
        Some(s) => Some(s.clone()),
        None => None,
    }
}

impl PersistentTask {
    /// A field-for-field copy.
    pub fn copy(&self) -> (r: Self)
        ensures
            r@ == self@,
    {
        PersistentTask {
            id: self.id,
            description: self.description.clone(),
            status: self.status,
            priority: self.priority,
            created_at: self.created_at.clone(),
            updated_at: self.updated_at.clone(),
            completed_at: copy_opt_string(&self.completed_at),
            tags: copy_strings(&self.tags),
            notes: copy_opt_string(&self.notes),
        }
    }
}

// ---------------------------------------------------------------------
// Ordering and normalisation
// ---------------------------------------------------------------------

/// The order in which tasks are kept: -1, 0 or 1 as `a` comes before, ties
/// with, or comes after `b`.  Status rank, then priority rank, then the later
/// `updated_at` first, then the smaller id.
pub open spec fn task_compare(a: TaskView, b: TaskView) -> int {
    if a.status.rank_of() != b.status.rank_of() {
        if a.status.rank_of() < b.status.rank_of() { -1 } else { 1 }
    } else if a.priority.rank_of() != b.priority.rank_of() {
        if a.priority.rank_of() < b.priority.rank_of() { -1 } else { 1 }
    } else if seq_compare(b.updated_at, a.updated_at) != 0 {
        seq_compare(b.updated_at, a.updated_at)
    } else if a.id < b.id {
        -1
    } else if a.id > b.id {
        1
    } else {
        0
    }
}

/// Where a stable insertion puts `x` into `s`: after every element that does
/// not come after it, scanning from the end.
pub open spec fn insert_pos(s: Seq<TaskView>, x: TaskView) -> int
    decreases s.len(),
{
    if s.len() > 0 && task_compare(s.last(), x) > 0 {
        insert_pos(s.drop_last(), x)
    } else {
        s.len() as int
    }
}

/// The tasks in the order a stable sort by `task_compare` gives them.
pub open spec fn sort_views(s: Seq<TaskView>) -> Seq<TaskView>
    decreases s.len(),
{
    if s.len() == 0 {
        s
    } else {
        let t = sort_views(s.drop_last());
        t.insert(insert_pos(t, s.last()), s.last())
    }
}

/// The largest id, or 0 for no tasks.
pub open spec fn max_id(s: Seq<TaskView>) -> nat
    decreases s.len(),
{
    if s.len() == 0 {
        0
    } else {
        let m = max_id(s.drop_last());
        if s.last().id > m { s.last().id as nat } else { m }
    }
}

/// The `next_id` that normalisation settles on.
pub open spec fn normal_next_id(s: Seq<TaskView>, next_id: u64) -> int {
    let n: int = if next_id <= max_id(s) { max_id(s) as int + 1 } else { next_id as int };
    if n == 0 { 1 } else { n }
}

pub proof fn lemma_insert_pos_bounds(s: Seq<TaskView>, x: TaskView)
    ensures
        0 <= insert_pos(s, x) <= s.len(),
    decreases s.len(),
{
    if s.len() > 0 && task_compare(s.last(), x) > 0 {
        lemma_insert_pos_bounds(s.drop_last(), x);
    }
}

pub proof fn lemma_sort_len(s: Seq<TaskView>)
    ensures
        sort_views(s).len() == s.len(),
    decreases s.len(),
{
    if s.len() > 0 {
        lemma_sort_len(s.drop_last());
        lemma_insert_pos_bounds(sort_views(s.drop_last()), s.last());
    }
}

/// Executable `task_compare`.
pub fn compare_tasks(a: &PersistentTask, b: &PersistentTask) -> (r: i8)
    ensures
        r == task_compare(a@, b@),
{
    let ra = a.status.rank();
    let rb = b.status.rank();
    if ra != rb {
        return if ra < rb { -1 } else { 1 };
    }
    let pa = a.priority.rank();
    let pb = b.priority.rank();
    if pa != pb {
        return if pa < pb { -1 } else { 1 };
    }
    let c = compare_str(b.updated_at.as_str(), a.updated_at.as_str());
    if c != 0 {
        return c;
    }
    if a.id < b.id {
        -1
    } else if a.id > b.id {
        1
    } else {
        0
    }
}

proof fn lemma_views_insert(v: Seq<PersistentTask>, p: int, x: PersistentTask)
    requires
        0 <= p <= v.len(),
    ensures
        tasks_view(v.insert(p, x)) == tasks_view(v).insert(p, x@),
{
    assert(tasks_view(v.insert(p, x)) =~= tasks_view(v).insert(p, x@));
}

/// Sorts tasks into list order (a stable sort by `task_compare`).
pub fn sort_tasks(tasks: &Vec<PersistentTask>) -> (r: Vec<PersistentTask>)
    ensures
        tasks_view(r@) == sort_views(tasks_view(tasks@)),
{
    let ghost all = tasks_view(tasks@);
    let mut out: Vec<PersistentTask> = Vec::new();
    let mut i: usize = 0;
    assert(all.take(0) =~= Seq::<TaskView>::empty());
    assert(tasks_view(out@) =~= Seq::<TaskView>::empty());
    while i < tasks.len()
        invariant
            i <= tasks@.len(),
            all == tasks_view(tasks@),
            tasks_view(out@) == sort_views(all.take(i as int)),
        decreases tasks@.len() - i,
    {
        let x = tasks[i].copy();
        let ghost cur = tasks_view(out@);
        proof {
            lemma_sort_len(all.take(i as int));
        }
        let mut j: usize = out.len();
        assert(cur.take(j as int) =~= cur);
        while j > 0 && compare_tasks(&out[j - 1], &x) > 0
            invariant
                j <= out@.len(),
                cur == tasks_view(out@),
                insert_pos(cur, x@) == insert_pos(cur.take(j as int), x@),
            decreases j,
        {
            proof {
                assert(cur.take(j as int).drop_last() =~= cur.take(j - 1));
                assert(cur.take(j as int).last() == out@[j - 1]@);
            }
            j = j - 1;
        }
        proof {
            if j > 0 {
                assert(cur.take(j as int).last() == out@[j - 1]@);
            }
            assert(insert_pos(cur.take(j as int), x@) == j);
            assert(all.take(i + 1).drop_last() =~= all.take(i as int));
            assert(all.take(i + 1).last() == x@);
            lemma_views_insert(out@, j as int, x);
        }
        out.insert(j, x);
        i = i + 1;
    }
    assert(all.take(tasks@.len() as int) =~= all);
    out
}

/// The largest id among the tasks, or 0.
fn max_task_id(tasks: &Vec<PersistentTask>) -> (r: u64)
    ensures
        r == max_id(tasks_view(tasks@)),
{
    let ghost all = tasks_view(tasks@);
    let mut m: u64 = 0;
    let mut i: usize = 0;
    assert(all.take(0) =~= Seq::<TaskView>::empty());
    while i < tasks.len()
        invariant
            i <= tasks@.len(),
            all == tasks_view(tasks@),
            m == max_id(all.take(i as int)),
        decreases tasks@.len() - i,
    {
        assert(all.take(i + 1).drop_last() =~= all.take(i as int));
        if tasks[i].id > m {
            m = tasks[i].id;
        }
        i = i + 1;
    }
    assert(all.take(tasks@.len() as int) =~= all);
    m
}

/// Puts the list into its canonical form: sorted, with `next_id` above
/// every id and never 0.
pub fn normalize_tasks(data: &mut TaskStoreData)
    requires
        max_id(tasks_view(old(data).tasks@)) < u64::MAX,
    ensures
        tasks_view(final(data).tasks@) == sort_views(tasks_view(old(data).tasks@)),
        final(data).next_id == normal_next_id(tasks_view(old(data).tasks@), old(data).next_id),
{
    let sorted = sort_tasks(&data.tasks);
    let m = max_task_id(&data.tasks);
    data.tasks = sorted;
    if data.next_id <= m {
        data.next_id = m + 1;
    }
    if data.next_id == 0 {
        data.next_id = 1;
    }
}

// ---------------------------------------------------------------------
// The task list and its operations
// ---------------------------------------------------------------------

/// The mathematical value of a loaded task list.
pub ghost struct TaskListView {
    pub tasks: Seq<TaskView>,
    pub next_id: u64,
}

impl View for TaskStoreData {
    type V = TaskListView;

    open spec fn view(&self) -> TaskListView {
        TaskListView { tasks: tasks_view(self.tasks@), next_id: self.next_id }
    }
}

impl Default for TaskStoreData {
    fn default() -> (r: Self)
        ensures
            r@.tasks.len() == 0,
            r@.next_id == 1,
    {
        TaskStoreData { tasks: Vec::new(), next_id: 1 }
    }
}

/// The index of the first task with this id, or -1.
pub open spec fn find_task(s: Seq<TaskView>, id: u64) -> int
    decreases s.len(),
{
    if s.len() == 0 {
        -1
    } else if s[0].id == id {
        0
    } else {
        let k = find_task(s.drop_first(), id);
        if k < 0 { -1 } else { k + 1 }
    }
}

pub proof fn lemma_find_task_bounds(s: Seq<TaskView>, id: u64)
    ensures
        -1 <= find_task(s, id) < s.len(),
        find_task(s, id) >= 0 ==> s[find_task(s, id)].id == id,
        find_task(s, id) < 0 ==> forall|j: int| 0 <= j < s.len() ==> s[j].id != id,
    decreases s.len(),
{
    if s.len() > 0 && s[0].id != id {
        lemma_find_task_bounds(s.drop_first(), id);
        if find_task(s, id) < 0 {
            assert forall|j: int| 0 <= j < s.len() implies s[j].id != id by {
                if j > 0 {
                    assert(s[j] == s.drop_first()[j - 1]);
                }
            }
        }
    }
}

/// Executable `find_task`.
pub fn find_task_index(tasks: &Vec<PersistentTask>, id: u64) -> (r: Option<usize>)
    ensures
        match r {
            Some(k) => find_task(tasks_view(tasks@), id) == k,
            None => find_task(tasks_view(tasks@), id) == -1,
        },
{
    let ghost all = tasks_view(tasks@);
    let mut i: usize = 0;
    assert(all.skip(0) =~= all);
    while i < tasks.len()
        invariant
            i <= tasks@.len(),
            all == tasks_view(tasks@),
            find_task(all, id) == (if find_task(all.skip(i as int), id) < 0 { -1 } else {
                find_task(all.skip(i as int), id) + i
            }),
        decreases tasks@.len() - i,
    {
        assert(all.skip(i as int)[0] == all[i as int]);
        if tasks[i].id == id {
            return Some(i);
        }
        assert(all.skip(i as int).drop_first() =~= all.skip(i + 1));
        i = i + 1;
    }
    None
}

/// A freshly added task.
pub open spec fn new_task_view(
    id: u64,
    description: Seq<char>,
    priority: TaskPriority,
    now: Seq<char>,
) -> TaskView {
    TaskView {
        id,
        description,
        status: TaskStatus::Pending,
        priority,
        created_at: now,
        updated_at: now,
        completed_at: None,
        tags: Seq::empty(),
        notes: None,
    }
}

/// A task whose status was changed at `now`.
pub open spec fn with_status(t: TaskView, status: TaskStatus, now: Seq<char>) -> TaskView {
    TaskView {
        status,
        updated_at: now,
        completed_at: if status == TaskStatus::Completed { Some(now) } else { None },
        ..t
    }
}

/// Starting task `id` sends every other in-progress task back to pending.
pub open spec fn demote_others(s: Seq<TaskView>, id: u64, now: Seq<char>) -> Seq<TaskView> {
    s.map_values(
        |t: TaskView|
            if t.status == TaskStatus::InProgress && t.id != id {
                with_status(t, TaskStatus::Pending, now)
            } else {
                t
            },
    )
}

/// The tasks that are not completed, in order.
pub open spec fn without_completed(s: Seq<TaskView>) -> Seq<TaskView>
    decreases s.len(),
{
    if s.len() == 0 {
        s
    } else if s.last().status == TaskStatus::Completed {
        without_completed(s.drop_last())
    } else {
        without_completed(s.drop_last()).push(s.last())
    }
}

/// The list after its tasks became `s`, in canonical form.
pub open spec fn normalized(s: Seq<TaskView>, next_id: u64) -> TaskListView {
    TaskListView { tasks: sort_views(s), next_id: normal_next_id(s, next_id) as u64 }
}

/// One line of the Markdown export.
pub open spec fn task_line(t: TaskView) -> Seq<char> {
    "- ["@ + t.status.label_text() + "] #"@ + decimal(t.id as nat) + " "@ + t.description + " ("@
        + t.priority.label_text() + ", "@ + t.updated_at + ")"@
}

/// The task lines, each preceded by a newline.
pub open spec fn task_lines(s: Seq<TaskView>) -> Seq<char>
    decreases s.len(),
{
    if s.len() == 0 {
        Seq::empty()
    } else {
        task_lines(s.drop_last()) + "\n"@ + task_line(s.last())
    }
}

/// The Markdown export of a task list.
pub open spec fn export_text(s: Seq<TaskView>) -> Seq<char> {
    if s.len() == 0 {
        "# Tasks\n\n当前没有持久化任务。"@
    } else {
        "# Tasks\n"@ + task_lines(s)
    }
}

pub proof fn lemma_max_id_push(s: Seq<TaskView>, x: TaskView)
    ensures
        max_id(s.push(x)) == if x.id > max_id(s) { x.id as nat } else { max_id(s) },
{
    assert(s.push(x).drop_last() =~= s);
}

pub proof fn lemma_max_id_bound(s: Seq<TaskView>)
    ensures
        forall|j: int| 0 <= j < s.len() ==> s[j].id <= max_id(s),
        s.len() > 0 ==> exists|j: int| 0 <= j < s.len() && s[j].id == max_id(s),
    decreases s.len(),
{
    if s.len() > 0 {
        lemma_max_id_bound(s.drop_last());
        assert forall|j: int| 0 <= j < s.len() implies s[j].id <= max_id(s) by {
            if j < s.len() - 1 {
                assert(s[j] == s.drop_last()[j]);
            }
        }
        if s.last().id <= max_id(s.drop_last()) && s.len() > 1 {
            let j = choose|j: int| 0 <= j < s.drop_last().len() && s.drop_last()[j].id == max_id(s.drop_last());
            assert(s[j] == s.drop_last()[j]);
        }
    }
}

/// Ids that are equal give tasks views with the same maximum.
proof fn lemma_max_id_same_ids(s: Seq<TaskView>, t: Seq<TaskView>)
    requires
        s.len() == t.len(),
        forall|j: int| 0 <= j < s.len() ==> s[j].id == t[j].id,
    ensures
        max_id(s) == max_id(t),
    decreases s.len(),
{
    if s.len() > 0 {
        lemma_max_id_same_ids(s.drop_last(), t.drop_last());
    }
}

/// One line of the Markdown export.
fn render_task_line(t: &PersistentTask) -> (r: String)
    ensures
        r@ == task_line(t@),
{
    let mut out = String::from_str("- [");
    out.append(t.status.label());
    out.append("] #");
    let id = u64_to_string(t.id);
    out.append(id.as_str());
    out.append(" ");
    out.append(t.description.as_str());
    out.append(" (");
    out.append(t.priority.label());
    out.append(", ");
    out.append(t.updated_at.as_str());
    out.append(")");
    out
}

/// Equal ids give equal maxima.
pub proof fn lemma_max_id_same_ids_pub(s: Seq<TaskView>, t: Seq<TaskView>)
    requires
        s.len() == t.len(),
        forall|j: int| 0 <= j < s.len() ==> s[j].id == t[j].id,
    ensures
        max_id(s) == max_id(t),
{
    lemma_max_id_same_ids(s, t);
}

/// Dropping completed tasks never raises the largest id.
pub proof fn lemma_without_completed_max(s: Seq<TaskView>)
    ensures
        max_id(without_completed(s)) <= max_id(s),
{
    lemma_without_completed_ids(s);
}

proof fn lemma_without_completed_ids(s: Seq<TaskView>)
    ensures
        without_completed(s).len() <= s.len(),
        max_id(without_completed(s)) <= max_id(s),
    decreases s.len(),
{
    if s.len() > 0 {
        lemma_without_completed_ids(s.drop_last());
        if s.last().status != TaskStatus::Completed {
            lemma_max_id_push(without_completed(s.drop_last()), s.last());
        }
    }
}

impl TaskStore {
    /// The path of the task list, as a character sequence.
    pub closed spec fn path_view(&self) -> Seq<char> {
        self.path@
    }

    /// The store for a working directory: `<workdir>/.sacode/tasks.json`.
    pub fn new(workdir: &str) -> (r: Self)
        ensures
            r.path_view() == crate::paths::path_join(workdir@, ".sacode/tasks.json"@),
    {
        TaskStore { path: crate::paths::join_path(workdir, ".sacode/tasks.json") }
    }

    pub fn path(&self) -> (r: &str)
        ensures
            r@ == self.path_view(),
    {
        self.path.as_str()
    }

    /// All tasks, in list order.
    pub fn list(&self, data: &TaskStoreData) -> (r: Vec<PersistentTask>)
        ensures
            tasks_view(r@) == data@.tasks,
    {
        let mut r: Vec<PersistentTask> = Vec::new();
        let mut i: usize = 0;
        while i < data.tasks.len()
            invariant
                i <= data.tasks@.len(),
                tasks_view(r@) == tasks_view(data.tasks@).take(i as int),
            decreases data.tasks@.len() - i,
        {
            let t = data.tasks[i].copy();
            let ghost prev = r@;
            r.push(t);
            proof {
                prev.lemma_push_map_commute(|t: PersistentTask| t@, t);
                data.tasks@.lemma_map_take_succ(|t: PersistentTask| t@, i as int);
            }
            assert(tasks_view(data.tasks@).take(i + 1) =~= tasks_view(data.tasks@.take(i + 1)));
            assert(tasks_view(data.tasks@).take(i as int) =~= tasks_view(data.tasks@.take(i as int)));
            i = i + 1;
        }
        assert(tasks_view(data.tasks@).take(data.tasks@.len() as int) =~= tasks_view(data.tasks@));
        r
    }

    /// The first task with this id.
    pub fn get(&self, data: &TaskStoreData, id: u64) -> (r: Option<PersistentTask>)
        ensures
            match r {
                Some(t) => find_task(data@.tasks, id) >= 0 && t@ == data@.tasks[find_task(data@.tasks, id)],
                None => find_task(data@.tasks, id) == -1,
            },
    {
        proof {
            lemma_find_task_bounds(data@.tasks, id);
        }
        match find_task_index(&data.tasks, id) {
            Some(k) => Some(data.tasks[k].copy()),
            None => None,
        }
    }

    /// Adds a pending task stamped `now`; its id is the list's `next_id`.
    pub fn add(
        &self,
        data: &mut TaskStoreData,
        description: &str,
        priority: TaskPriority,
        now: &str,
    ) -> (r: Result<PersistentTask, TaskStoreError>)
        requires
            old(data).next_id < u64::MAX,
            max_id(old(data)@.tasks) < u64::MAX,
        ensures
            trim(description@).len() == 0 ==> r == Err::<PersistentTask, TaskStoreError>(
                TaskStoreError::EmptyDescription,
            ) && final(data)@ == old(data)@,
            trim(description@).len() > 0 ==> r is Ok && r->Ok_0@ == new_task_view(
                old(data).next_id,
                trim(description@),
                priority,
                now@,
            ) && final(data)@ == normalized(
                old(data)@.tasks.push(r->Ok_0@),
                (old(data).next_id + 1) as u64,
            ),
    {
        let description = trim_str(description);
        if description.as_str().unicode_len() == 0 {
            return Err(TaskStoreError::EmptyDescription);
        }
        let task = PersistentTask {
            id: data.next_id,
            description,
            status: TaskStatus::Pending,
            priority,
            created_at: String::from_str(now),
            updated_at: String::from_str(now),
            completed_at: None,
            tags: Vec::new(),
            notes: None,
        };
        assert(strings_view(task.tags@) =~= Seq::<Seq<char>>::empty());
        let ghost before = data.tasks@;
        let ghost tv = task;
        let ret = task.copy();
        data.tasks.push(task);
        data.next_id = data.next_id + 1;
        proof {
            before.lemma_push_map_commute(|t: PersistentTask| t@, tv);
            assert(data.tasks@ == before.push(tv));
            assert(tasks_view(data.tasks@) == tasks_view(before).push(ret@));
            lemma_max_id_push(tasks_view(before), ret@);
        }
        normalize_tasks(data);
        Ok(ret)
    }

    /// Replaces the description of the first task with this id, stamping `now`.
    pub fn update_description(
        &self,
        data: &mut TaskStoreData,
        id: u64,
        description: &str,
        now: &str,
    ) -> (r: Result<PersistentTask, TaskStoreError>)
        requires
            max_id(old(data)@.tasks) < u64::MAX,
        ensures
            trim(description@).len() == 0 ==> r == Err::<PersistentTask, TaskStoreError>(
                TaskStoreError::EmptyDescription,
            ) && final(data)@ == old(data)@,
            trim(description@).len() > 0 && find_task(old(data)@.tasks, id) < 0 ==> r == Err::<
                PersistentTask,
                TaskStoreError,
            >(TaskStoreError::NotFound(id)) && final(data)@ == old(data)@,
            trim(description@).len() > 0 && find_task(old(data)@.tasks, id) >= 0 ==> {
                let k = find_task(old(data)@.tasks, id);
                &&& r is Ok
                &&& r->Ok_0@ == (TaskView {
                    description: trim(description@),
                    updated_at: now@,
                    ..old(data)@.tasks[k]
                })
                &&& final(data)@ == normalized(old(data)@.tasks.update(k, r->Ok_0@), old(data).next_id)
            },
    {
        let description = trim_str(description);
        if description.as_str().unicode_len() == 0 {
            return Err(TaskStoreError::EmptyDescription);
        }
        proof {
            lemma_find_task_bounds(data@.tasks, id);
        }
        match find_task_index(&data.tasks, id) {
            None => Err(TaskStoreError::NotFound(id)),
            Some(k) => {
                let updated = {
                    let t = &data.tasks[k];
                    PersistentTask {
                        id: t.id,
                        description,
                        status: t.status,
                        priority: t.priority,
                        created_at: t.created_at.clone(),
                        updated_at: String::from_str(now),
                        completed_at: copy_opt_string(&t.completed_at),
                        tags: copy_strings(&t.tags),
                        notes: copy_opt_string(&t.notes),
                    }
                };
                let ghost before = data.tasks@;
                let ghost uv = updated;
                let ret = updated.copy();
                data.tasks.set(k, updated);
                proof {
                    assert(tasks_view(data.tasks@) =~= tasks_view(before).update(k as int, ret@));
                    lemma_max_id_same_ids(tasks_view(data.tasks@), tasks_view(before));
                }
                normalize_tasks(data);
                Ok(ret)
            },
        }
    }

    /// Sets the status of the first task with this id, stamping `now`.  Starting
    /// a task sends every other in-progress task back to pending; completing
    /// one records `now` as its completion time.
    pub fn set_status(
        &self,
        data: &mut TaskStoreData,
        id: u64,
        status: TaskStatus,
        now: &str,
    ) -> (r: Result<PersistentTask, TaskStoreError>)
        requires
            max_id(old(data)@.tasks) < u64::MAX,
        ensures
            find_task(old(data)@.tasks, id) < 0 ==> r == Err::<PersistentTask, TaskStoreError>(
                TaskStoreError::NotFound(id),
            ) && final(data)@ == old(data)@,
            find_task(old(data)@.tasks, id) >= 0 ==> {
                let k = find_task(old(data)@.tasks, id);
                let base = if status == TaskStatus::InProgress {
                    demote_others(old(data)@.tasks, id, now@)
                } else {
                    old(data)@.tasks
                };
                &&& r is Ok
                &&& r->Ok_0@ == with_status(old(data)@.tasks[k], status, now@)
                &&& final(data)@ == normalized(base.update(k, r->Ok_0@), old(data).next_id)
            },
    {
        proof {
            lemma_find_task_bounds(data@.tasks, id);
        }
        let k = match find_task_index(&data.tasks, id) {
            None => {
                return Err(TaskStoreError::NotFound(id));
            },
            Some(k) => k,
        };
        let ghost before = data@.tasks;
        if status == TaskStatus::InProgress {
            let mut i: usize = 0;
            while i < data.tasks.len()
                invariant
                    data.tasks@.len() == before.len(),
                    data.next_id == old(data).next_id,
                    k < before.len(),
                    i <= before.len(),
                    forall|j: int| 0 <= j < i ==> data@.tasks[j] == demote_others(before, id, now@)[j],
                    forall|j: int| i <= j < before.len() ==> data@.tasks[j] == before[j],
                decreases before.len() - i,
            {
                let ghost snapshot = data@.tasks;
                if data.tasks[i].status == TaskStatus::InProgress && data.tasks[i].id != id {
                    let demoted = {
                        let t = &data.tasks[i];
                        PersistentTask {
                            id: t.id,
                            description: t.description.clone(),
                            status: TaskStatus::Pending,
                            priority: t.priority,
                            created_at: t.created_at.clone(),
                            updated_at: String::from_str(now),
                            completed_at: None,
                            tags: copy_strings(&t.tags),
                            notes: copy_opt_string(&t.notes),
                        }
                    };
                    let ghost prev = data.tasks@;
                    data.tasks.set(i, demoted);
                    assert forall|j: int| 0 <= j < before.len() && j != i implies data@.tasks[j] == snapshot[j] by {
                        assert(data.tasks@[j] == prev[j]);
                    }
                    assert(data@.tasks[i as int] == demoted@);
                    assert(demoted@ == with_status(before[i as int], TaskStatus::Pending, now@));
                    assert(data@.tasks[i as int] == demote_others(before, id, now@)[i as int]);
                } else {
                    assert(data@.tasks[i as int] == before[i as int]);
                    assert(demote_others(before, id, now@)[i as int] == before[i as int]);
                }
                assert forall|j: int| 0 <= j < i + 1 implies data@.tasks[j] == demote_others(before, id, now@)[j] by {
                    if j < i {
                        assert(snapshot[j] == demote_others(before, id, now@)[j]);
                        assert(data@.tasks[j] == snapshot[j]);
                    }
                }
                i = i + 1;
            }
            assert(data@.tasks =~= demote_others(before, id, now@));
        }
        let ghost base = data@.tasks;
        assert(base[k as int] == before[k as int]);
        let updated = {
            let t = &data.tasks[k];
            PersistentTask {
                id: t.id,
                description: t.description.clone(),
                status,
                priority: t.priority,
                created_at: t.created_at.clone(),
                updated_at: String::from_str(now),
                completed_at: if status == TaskStatus::Completed {
                    Some(String::from_str(now))
                } else {
                    None
                },
                tags: copy_strings(&t.tags),
                notes: copy_opt_string(&t.notes),
            }
        };
        let ret = updated.copy();
        let ghost prev = data.tasks@;
        data.tasks.set(k, updated);
        proof {
            assert(tasks_view(data.tasks@) =~= base.update(k as int, ret@));
            lemma_max_id_same_ids(tasks_view(data.tasks@), before);
        }
        normalize_tasks(data);
        assert(ret@ == with_status(before[k as int], status, now@));
        assert(data@ == normalized(base.update(k as int, ret@), old(data).next_id));
        Ok(ret)
    }

    /// Removes every completed task; returns how many were removed.
    pub fn clear_completed(&self, data: &mut TaskStoreData) -> (r: usize)
        requires
            max_id(old(data)@.tasks) < u64::MAX,
        ensures
            r == old(data)@.tasks.len() - without_completed(old(data)@.tasks).len(),
            final(data)@ == normalized(without_completed(old(data)@.tasks), old(data).next_id),
    {
        let ghost all = data@.tasks;
        let before = data.tasks.len();
        let mut kept: Vec<PersistentTask> = Vec::new();
        let mut i: usize = 0;
        assert(all.take(0) =~= Seq::<TaskView>::empty());
        assert(tasks_view(kept@) =~= Seq::<TaskView>::empty());
        while i < data.tasks.len()
            invariant
                i <= data.tasks@.len(),
                all == data@.tasks,
                tasks_view(kept@) == without_completed(all.take(i as int)),
                kept@.len() <= i,
            decreases data.tasks@.len() - i,
        {
            assert(all.take(i + 1).drop_last() =~= all.take(i as int));
            if data.tasks[i].status != TaskStatus::Completed {
                let t = data.tasks[i].copy();
                let ghost prev = kept@;
                kept.push(t);
                proof {
                    prev.lemma_push_map_commute(|t: PersistentTask| t@, t);
                }
            }
            i = i + 1;
        }
        assert(all.take(all.len() as int) =~= all);
        proof {
            lemma_without_completed_ids(all);
        }
        let removed = before - kept.len();
        data.tasks = kept;
        normalize_tasks(data);
        removed
    }

    /// The task list as Markdown: a `# Tasks` heading, then one line per task
    /// (`- [STATUS] #id description (PRIORITY, updated_at)`), or a notice
    /// when the list is empty.
    pub fn export_markdown(&self, data: &TaskStoreData) -> (r: String)
        ensures
            r@ == export_text(data@.tasks),
    {
        if data.tasks.len() == 0 {
            return String::from_str("# Tasks\n\n当前没有持久化任务。");
        }
        let ghost all = data@.tasks;
        let mut out = String::from_str("# Tasks\n");
        let mut i: usize = 0;
        assert(all.take(0) =~= Seq::<TaskView>::empty());
        while i < data.tasks.len()
            invariant
                i <= data.tasks@.len(),
                all == data@.tasks,
                out@ == "# Tasks\n"@ + task_lines(all.take(i as int)),
            decreases data.tasks@.len() - i,
        {
            let t = &data.tasks[i];
            assert(all.take(i + 1).drop_last() =~= all.take(i as int));
            assert(all.take(i + 1).last() == t@);
            let line = render_task_line(t);
            out.append("\n");
            out.append(line.as_str());
            assert(out@ =~= "# Tasks\n"@ + task_lines(all.take(i + 1)));
            i = i + 1;
        }
        assert(all.take(all.len() as int) =~= all);
        out
    }
}



/// The `next_id` of a task file that has none.
pub fn default_next_id() -> (r: u64)
    ensures
        r == 1,
{
    1
}

} // verus!
