//! The to-do list made from a plan: shown, confirmed (which queues its
//! pending items), and ticked off as the queued tasks finish.

use vstd::prelude::*;
use crate::report::PlanStep;
use crate::task_store::strings_view;
use crate::runner::{join, join_strings};
use crate::text::{decimal, u64_to_string};
use crate::words::{words, split_whitespace};

verus! {

#[derive(Debug, Clone, Copy, PartialEq, Eq, Structural)]
pub enum TodoStatus {
    Pending,
    Running,
    Completed,
}

#[derive(Debug)]
pub struct TodoItem {
    pub id: usize,
    pub description: String,
    pub status: TodoStatus,
}

#[derive(Debug)]
pub struct TodoPlan {
    /// The task the plan was made for.
    pub source_task: String,
    pub items: Vec<TodoItem>,
    pub confirmed: bool,
}

pub ghost struct ItemView {
    pub id: usize,
    pub description: Seq<char>,
    pub status: TodoStatus,
}

impl View for TodoItem {
    type V = ItemView;

    open spec fn view(&self) -> ItemView {
        ItemView { id: self.id, description: self.description@, status: self.status }
    }
}

pub open spec fn items_view(v: Seq<TodoItem>) -> Seq<ItemView> {
    v.map_values(|i: TodoItem| i@)
}

/// The items of a plan's steps, all pending.
pub open spec fn pending_items(steps: Seq<PlanStep>) -> Seq<ItemView> {
    Seq::new(
        steps.len(),
        |i: int| ItemView { id: steps[i].id, description: steps[i].description@, status: TodoStatus::Pending },
    )
}

/// A plan of at least two steps becomes the to-do list of its task; a
/// shorter plan makes none.
pub fn capture_todo_plan(source_task: &str, steps: &Vec<PlanStep>) -> (r: Option<TodoPlan>)
    ensures
        match r {
            Some(p) => {
                &&& steps@.len() >= 2
                &&& p.source_task@ == source_task@
                &&& items_view(p.items@) == pending_items(steps@)
                &&& !p.confirmed
            },
            None => steps@.len() < 2,
        },
{
    if steps.len() < 2 {
        return None;
    }
    let mut items: Vec<TodoItem> = Vec::new();
    let mut i: usize = 0;
    let ghost all = pending_items(steps@);
    assert(items_view(items@) =~= all.take(0));
    while i < steps.len()
        invariant
            i <= steps@.len(),
            all == pending_items(steps@),
            items_view(items@) == all.take(i as int),
        decreases steps@.len() - i,
    {
        let item = TodoItem {
            id: steps[i].id,
            description: steps[i].description.clone(),
            status: TodoStatus::Pending,
        };
        let ghost prev = items@;
        items.push(item);
        proof {
            prev.lemma_push_map_commute(|x: TodoItem| x@, item);
            assert(all.take(i + 1) =~= all.take(i as int).push(all[i as int]));
        }
        i = i + 1;
    }
    assert(all.take(all.len() as int) =~= all);
    Some(TodoPlan { source_task: String::from_str(source_task), items, confirmed: false })
}

pub open spec fn status_text(s: TodoStatus) -> Seq<char> {
    match s {
        TodoStatus::Pending => "pending"@,
        TodoStatus::Running => "running"@,
        TodoStatus::Completed => "completed"@,
    }
}

pub open spec fn item_line(i: ItemView) -> Seq<char> {
    decimal(i.id as nat) + ". ["@ + status_text(i.status) + "] "@ + i.description
}

/// The text `/todo show` prints.
pub open spec fn plan_text(source_task: Seq<char>, items: Seq<ItemView>, confirmed: bool) -> Seq<char> {
    let lines = seq!["任务规划: "@ + source_task] + Seq::new(items.len(), |i: int| item_line(items[i])) + seq![
        "确认状态: "@ + if confirmed { "已确认"@ } else { "待确认"@ },
    ];
    join(lines, "\n"@)
}

/// The to-do list as text, or the notice that there is none.
pub fn show_todo_plan(plan: &Option<TodoPlan>) -> (r: String)
    ensures
        r@ == match plan {
            Some(p) => plan_text(p.source_task@, items_view(p.items@), p.confirmed),
            None => "当前没有待办列表。先发送一个需要规划的任务。"@,
        },
{
    match plan {
        None => String::from_str("当前没有待办列表。先发送一个需要规划的任务。"),
        Some(p) => {
            let ghost iv = items_view(p.items@);
            let ghost body = Seq::new(iv.len(), |i: int| item_line(iv[i]));
            let mut lines: Vec<String> = Vec::new();
            let mut head = String::from_str("任务规划: ");
            head.append(p.source_task.as_str());
            lines.push(head);
            assert(strings_view(lines@) =~= seq!["任务规划: "@ + p.source_task@] + body.take(0));
            let mut i: usize = 0;
            while i < p.items.len()
                invariant
                    i <= p.items@.len(),
                    iv == items_view(p.items@),
                    body == Seq::new(iv.len(), |i: int| item_line(iv[i])),
                    strings_view(lines@) == seq!["任务规划: "@ + p.source_task@] + body.take(i as int),
                decreases p.items@.len() - i,
            {
                let it = &p.items[i];
                let mut l = u64_to_string(it.id as u64);
                l.append(". [");
                l.append(match it.status {
                    TodoStatus::Pending => "pending",
                    TodoStatus::Running => "running",
                    TodoStatus::Completed => "completed",
                });
                l.append("] ");
                l.append(it.description.as_str());
                let ghost prev = lines@;
                lines.push(l);
                proof {
                    prev.lemma_push_map_commute(|s: String| s@, l);
                    assert(body.take(i + 1) =~= body.take(i as int).push(body[i as int]));
                }
                i = i + 1;
            }
            assert(body.take(body.len() as int) =~= body);
            let mut last = String::from_str("确认状态: ");
            last.append(if p.confirmed { "已确认" } else { "待确认" });
            let ghost prev = lines@;
            lines.push(last);
            proof {
                prev.lemma_push_map_commute(|s: String| s@, last);
                assert(strings_view(lines@) =~= seq!["任务规划: "@ + p.source_task@] + body + seq![
                    "确认状态: "@ + if p.confirmed { "已确认"@ } else { "待确认"@ },
                ]);
            }
            join_strings(&lines, "\n")
        },
    }
}

/// What confirming the to-do list did.
#[derive(Debug)]
pub enum TodoConfirmation {
    /// It was confirmed before; nothing changes.
    AlreadyConfirmed,
    /// The descriptions of the items that were pending, now running, to be
    /// queued in order.
    Queued(Vec<String>),
}

/// The items after confirmation: every pending item is running.
pub open spec fn started(items: Seq<ItemView>) -> Seq<ItemView> {
    Seq::new(
        items.len(),
        |i: int| if items[i].status == TodoStatus::Pending {
            ItemView { status: TodoStatus::Running, ..items[i] }
        } else {
            items[i]
        },
    )
}

/// The descriptions of the pending items, in order.
pub open spec fn pending_descriptions(items: Seq<ItemView>) -> Seq<Seq<char>>
    decreases items.len(),
{
    if items.len() == 0 {
        Seq::empty()
    } else {
        let rest = pending_descriptions(items.drop_last());
        if items.last().status == TodoStatus::Pending {
            rest.push(items.last().description)
        } else {
            rest
        }
    }
}

/// Confirms the to-do list: its pending items start running and are
/// handed back to be queued.
pub fn confirm_todo_plan(plan: &mut TodoPlan) -> (r: TodoConfirmation)
    ensures
        old(plan).confirmed ==> (r is AlreadyConfirmed && items_view(final(plan).items@) == items_view(
            old(plan).items@,
        ) && final(plan).confirmed),
        !old(plan).confirmed ==> (r matches TodoConfirmation::Queued(q) && strings_view(q@)
            == pending_descriptions(items_view(old(plan).items@)) && items_view(final(plan).items@)
            == started(items_view(old(plan).items@)) && final(plan).confirmed),
        final(plan).source_task@ == old(plan).source_task@,
{
    if plan.confirmed {
        return TodoConfirmation::AlreadyConfirmed;
    }
    plan.confirmed = true;
    let ghost st = plan.source_task@;
    let ghost before = items_view(plan.items@);
    let ghost target = started(before);
    let mut queued: Vec<String> = Vec::new();
    let mut i: usize = 0;
    assert(before.take(0) =~= Seq::<ItemView>::empty());
    while i < plan.items.len()
        invariant
            i <= plan.items@.len(),
            before.len() == plan.items@.len(),
            target == started(before),
            plan.confirmed,
            plan.source_task@ == st,
            forall|j: int| 0 <= j < i ==> #[trigger] items_view(plan.items@)[j] == target[j],
            forall|j: int| i <= j < plan.items@.len() ==> #[trigger] items_view(plan.items@)[j] == before[j],
            strings_view(queued@) == pending_descriptions(before.take(i as int)),
        decreases plan.items@.len() - i,
    {
        assert(before.take(i + 1).drop_last() =~= before.take(i as int));
        assert(items_view(plan.items@)[i as int] == before[i as int]);
        assert(before.take(i + 1).last() == before[i as int]);
        if plan.items[i].status == TodoStatus::Pending {
            let d = plan.items[i].description.clone();
            let ghost prev = queued@;
            queued.push(d);
            proof {
                prev.lemma_push_map_commute(|s: String| s@, d);
            }
            let ghost old_items = plan.items@;
            let item = TodoItem {
                id: plan.items[i].id,
                description: plan.items[i].description.clone(),
                status: TodoStatus::Running,
            };
            plan.items.set(i, item);
            proof {
                assert forall|j: int| 0 <= j < plan.items@.len() implies #[trigger] items_view(plan.items@)[j]
                    == (if j == i { item@ } else { items_view(old_items)[j] }) by {}
            }
        }
        i = i + 1;
    }
    assert(before.take(before.len() as int) =~= before);
    assert(items_view(plan.items@) =~= target);
    TodoConfirmation::Queued(queued)
}

/// The notice shown after confirming.
pub fn todo_confirmation_notice(c: &TodoConfirmation) -> (r: String)
    ensures
        r@ == match c {
            TodoConfirmation::AlreadyConfirmed => "当前待办已经确认过，正在按顺序执行。"@,
            TodoConfirmation::Queued(q) => if q@.len() == 0 {
                "待办列表中没有可执行项。"@
            } else {
                "已确认待办，加入执行队列 "@ + decimal(q@.len()) + " 项。"@
            },
        },
{
    match c {
        TodoConfirmation::AlreadyConfirmed => String::from_str("当前待办已经确认过，正在按顺序执行。"),
        TodoConfirmation::Queued(q) => if q.len() == 0 {
            String::from_str("待办列表中没有可执行项。")
        } else {
            let mut s = String::from_str("已确认待办，加入执行队列 ");
            s.append(u64_to_string(q.len() as u64).as_str());
            s.append(" 项。");
            s
        },
    }
}

/// The index of the first running item with this description, if any.
pub open spec fn running_index(items: Seq<ItemView>, prompt: Seq<char>) -> Option<int>
    decreases items.len(),
{
    if items.len() == 0 {
        None
    } else {
        match running_index(items.drop_last(), prompt) {
            Some(k) => Some(k),
            None => if items.last().description == prompt && items.last().status == TodoStatus::Running {
                Some(items.len() - 1)
            } else {
                None
            },
        }
    }
}

proof fn lemma_running_index(items: Seq<ItemView>, prompt: Seq<char>, i: int)
    requires
        0 <= i <= items.len(),
        forall|j: int| 0 <= j < i ==> !(#[trigger] items[j].description == prompt && items[j].status == TodoStatus::Running),
    ensures
        i < items.len() && items[i].description == prompt && items[i].status == TodoStatus::Running
            ==> running_index(items, prompt) == Some(i),
        i == items.len() ==> running_index(items, prompt) is None,
    decreases items.len(),
{
    if items.len() > 0 {
        let k = if i < items.len() { i } else { i - 1 };
        lemma_running_index(items.drop_last(), prompt, k);
    }
}

/// A finished task ticks off the first running item with the same
/// description.
pub fn mark_todo_completed(plan: &mut TodoPlan, prompt: &str)
    ensures
        items_view(final(plan).items@) == match running_index(items_view(old(plan).items@), prompt@) {
            Some(k) => items_view(old(plan).items@).update(
                k,
                ItemView { status: TodoStatus::Completed, ..items_view(old(plan).items@)[k] },
            ),
            None => items_view(old(plan).items@),
        },
        final(plan).confirmed == old(plan).confirmed,
        final(plan).source_task@ == old(plan).source_task@,
{
    let ghost before = items_view(plan.items@);
    let k = find_running(&plan.items, prompt);
    match k {
        Some(i) => {
            let item = TodoItem {
                id: plan.items[i].id,
                description: plan.items[i].description.clone(),
                status: TodoStatus::Completed,
            };
            plan.items.set(i, item);
            assert(items_view(plan.items@) =~= before.update(
                i as int,
                ItemView { status: TodoStatus::Completed, ..before[i as int] },
            ));
        },
        None => {},
    }
}

/// The index of the first running item with this description.
fn find_running(items: &Vec<TodoItem>, prompt: &str) -> (r: Option<usize>)
    ensures
        match r {
            Some(i) => i < items@.len() && running_index(items_view(items@), prompt@) == Some(i as int),
            None => running_index(items_view(items@), prompt@) is None,
        },
{
    let ghost before = items_view(items@);
    let p = crate::text::to_chars(prompt);
    let mut i: usize = 0;
    while i < items.len()
        invariant
            i <= items@.len(),
            before == items_view(items@),
            p@ == prompt@,
            forall|j: int| 0 <= j < i ==> !(#[trigger] before[j].description == prompt@ && before[j].status
                == TodoStatus::Running),
        decreases items@.len() - i,
    {
        assert(before[i as int] == items@[i as int]@);
        let d = crate::text::to_chars(items[i].description.as_str());
        if crate::text::chars_eq(d.as_slice(), p.as_slice()) && items[i].status == TodoStatus::Running {
            proof {
                lemma_running_index(before, prompt@, i as int);
            }
            return Some(i);
        }
        i = i + 1;
    }
    proof {
        lemma_running_index(before, prompt@, i as int);
    }
    None
}

/// What a `/todo` line asks for.
#[derive(Debug, Clone, Copy, PartialEq, Eq, Structural)]
pub enum TodoRequest {
    /// `show` (also with no sub-command).
    Show,
    Confirm,
    Clear,
    Usage,
}

pub open spec fn todo_request_of(w: Seq<Seq<char>>) -> TodoRequest {
    let sub = if w.len() > 1 { w[1] } else { "show"@ };
    if sub == "show"@ {
        TodoRequest::Show
    } else if sub == "confirm"@ {
        TodoRequest::Confirm
    } else if sub == "clear"@ {
        TodoRequest::Clear
    } else {
        TodoRequest::Usage
    }
}

fn is_text(a: &str, b: &str) -> (r: bool)
    ensures
        r == (a@ == b@),
{
    crate::text::chars_eq(crate::text::to_chars(a).as_slice(), crate::text::to_chars(b).as_slice())
}

/// Reads a `/todo` line.
pub fn parse_todo_command(line: &str) -> (r: TodoRequest)
    ensures
        r == todo_request_of(words(line@)),
{
    let w = split_whitespace(line);
    proof {
        if w.len() > 1 {
            assert(strings_view(w@)[1] == w@[1]@);
        }
    }
    let sub: &str = if w.len() > 1 { w[1].as_str() } else { "show" };
    if is_text(sub, "show") {
        TodoRequest::Show
    } else if is_text(sub, "confirm") {
        TodoRequest::Confirm
    } else if is_text(sub, "clear") {
        TodoRequest::Clear
    } else {
        TodoRequest::Usage
    }
}

// ---------------------------------------------------------------------
// Laws
// ---------------------------------------------------------------------

/// After confirmation no item is pending, and every item keeps its id and
/// description.
pub proof fn law_confirm_leaves_nothing_pending(items: Seq<ItemView>)
    ensures
        forall|i: int| 0 <= i < started(items).len() ==> #[trigger] started(items)[i].status != TodoStatus::Pending,
        started(items).len() == items.len(),
        forall|i: int| 0 <= i < items.len() ==> #[trigger] started(items)[i].id == items[i].id
            && started(items)[i].description == items[i].description,
{
}

/// Confirming a second time changes nothing: once started, a list has no
/// pending item left to start.
pub proof fn law_confirm_twice_is_confirm_once(items: Seq<ItemView>)
    ensures
        started(started(items)) == started(items),
        pending_descriptions(started(items)).len() == 0,
{
    assert(started(started(items)) =~= started(items));
    lemma_no_pending(started(items));
}

proof fn lemma_no_pending(items: Seq<ItemView>)
    requires
        forall|i: int| 0 <= i < items.len() ==> #[trigger] items[i].status != TodoStatus::Pending,
    ensures
        pending_descriptions(items).len() == 0,
    decreases items.len(),
{
    if items.len() > 0 {
        lemma_no_pending(items.drop_last());
    }
}

} // verus!
