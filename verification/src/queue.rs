//! The task queue of the interface: one task runs at a time, messages sent
//! meanwhile wait in line and start in the order they were sent, and a
//! running task can be cancelled.

use vstd::prelude::*;
use crate::provider_config::NamedProviderConfig;
use crate::text::{decimal, u64_to_string};

verus! {

/// A message waiting to run as a task.
#[derive(Debug)]
pub struct QueuedMessage {
    pub id: u64,
    pub content: String,
}

/// The queue.
#[derive(Debug)]
pub struct TaskQueue {
    /// Something is running (a task, or other background work).
    pub processing: bool,
    /// The task that is running, if it is a task.
    pub active_task_id: Option<u64>,
    /// The waiting messages, oldest first.
    pub queued: Vec<QueuedMessage>,
    /// The id the next message gets.
    pub next_task_id: u64,
    /// Tasks cancelled while running, whose results are to be dropped.
    pub canceled: Vec<u64>,
}

pub ghost struct QueueView {
    pub processing: bool,
    pub active: Option<u64>,
    pub queued: Seq<(u64, Seq<char>)>,
    pub next_id: u64,
    pub canceled: Seq<u64>,
}

pub open spec fn queued_view(v: Seq<QueuedMessage>) -> Seq<(u64, Seq<char>)> {
    v.map_values(|m: QueuedMessage| (m.id, m.content@))
}

impl View for TaskQueue {
    type V = QueueView;

    open spec fn view(&self) -> QueueView {
        QueueView {
            processing: self.processing,
            active: self.active_task_id,
            queued: queued_view(self.queued@),
            next_id: self.next_task_id,
            canceled: self.canceled@,
        }
    }
}

/// A running task means the queue is busy; waiting ids increase from the
/// front and were all handed out before `next_id`, as was the running one.
pub open spec fn queue_wf(q: QueueView) -> bool {
    &&& (q.active is Some ==> q.processing)
    &&& forall|i: int, j: int| 0 <= i < j < q.queued.len() ==> q.queued[i].0 < q.queued[j].0
    &&& forall|i: int| 0 <= i < q.queued.len() ==> q.queued[i].0 < q.next_id
    &&& (q.active matches Some(a) ==> a < q.next_id)
}

/// What sending a message did.
#[derive(Debug)]
pub enum Enqueued {
    /// Nothing was running: the message starts now as task `id`.
    Started(u64, String),
    /// Something is running: the message waits as task `id` behind `ahead`
    /// others.
    Waiting(u64, usize),
}

impl TaskQueue {
    pub open spec fn wf(&self) -> bool {
        queue_wf(self@)
    }

    /// An idle queue; the first task gets id 1.
    pub fn new() -> (r: Self)
        ensures
            r.wf(),
            r@ == (QueueView {
                processing: false,
                active: None,
                queued: Seq::empty(),
                next_id: 1,
                canceled: Seq::empty(),
            }),
    {
        let r = TaskQueue {
            processing: false,
            active_task_id: None,
            queued: Vec::new(),
            next_task_id: 1,
            canceled: Vec::new(),
        };
        assert(r@.queued =~= Seq::<(u64, Seq<char>)>::empty());
        r
    }

    /// Sends a message: it gets the next id and starts at once when nothing
    /// is running, else it waits at the back of the line.
    pub fn enqueue(&mut self, content: String) -> (r: Enqueued)
        requires
            old(self).wf(),
            old(self).next_task_id < u64::MAX,
        ensures
            final(self).wf(),
            final(self)@.next_id == old(self)@.next_id + 1,
            final(self)@.canceled == old(self)@.canceled,
            !old(self)@.processing ==> (r matches Enqueued::Started(id, c) && id == old(self)@.next_id
                && c@ == content@ && final(self)@.processing && final(self)@.active == Some(id)
                && final(self)@.queued == old(self)@.queued),
            old(self)@.processing ==> (r matches Enqueued::Waiting(id, ahead) && id == old(self)@.next_id
                && ahead == old(self)@.queued.len() && final(self)@.processing == old(self)@.processing
                && final(self)@.active == old(self)@.active
                && final(self)@.queued == old(self)@.queued.push((id, content@))),
    {
        let id = self.next_task_id;
        self.next_task_id = self.next_task_id + 1;
        if self.processing {
            let ahead = self.queued.len();
            let ghost prev = self.queued@;
            let m = QueuedMessage { id, content };
            self.queued.push(m);
            proof {
                prev.lemma_push_map_commute(|m: QueuedMessage| (m.id, m.content@), m);
                let nq = queued_view(self.queued@);
                let oq = queued_view(prev);
                assert(oq == old(self)@.queued);
                assert(nq == oq.push((id, m.content@)));
                assert forall|i: int, j: int| 0 <= i < j < nq.len() implies nq[i].0 < nq[j].0 by {
                    assert(nq[i] == oq[i]);
                    assert(oq[i].0 < id);
                    if j < oq.len() {
                        assert(nq[j] == oq[j]);
                    } else {
                        assert(nq[j].0 == id);
                    }
                }
                assert forall|i: int| 0 <= i < nq.len() implies nq[i].0 < self.next_task_id by {
                    if i < oq.len() {
                        assert(nq[i] == oq[i]);
                        assert(oq[i].0 < id);
                    }
                }
            }
            Enqueued::Waiting(id, ahead)
        } else {
            self.processing = true;
            self.active_task_id = Some(id);
            proof {
                let q = self@.queued;
                assert(q == old(self)@.queued);
                assert forall|i: int, j: int| 0 <= i < j < q.len() implies q[i].0 < q[j].0 by {
                    assert(old(self)@.queued[i].0 < old(self)@.queued[j].0);
                }
                assert forall|i: int| 0 <= i < q.len() implies q[i].0 < self.next_task_id by {
                    assert(old(self)@.queued[i].0 < old(self)@.next_id);
                }
            }
            Enqueued::Started(id, content)
        }
    }

    /// The running task finished: nothing runs.
    pub fn finish_active(&mut self)
        requires
            old(self).wf(),
        ensures
            final(self).wf(),
            final(self)@ == (QueueView { processing: false, active: None, ..old(self)@ }),
    {
        self.processing = false;
        self.active_task_id = None;
    }

    /// When nothing runs, the oldest waiting message starts.
    pub fn start_next(&mut self) -> (r: Option<QueuedMessage>)
        requires
            old(self).wf(),
        ensures
            final(self).wf(),
            final(self)@.next_id == old(self)@.next_id,
            final(self)@.canceled == old(self)@.canceled,
            (old(self)@.processing || old(self)@.queued.len() == 0) ==> (r is None && final(self)@ == old(self)@),
            (!old(self)@.processing && old(self)@.queued.len() > 0) ==> (r matches Some(m) && (m.id, m.content@)
                == old(self)@.queued[0] && final(self)@.processing && final(self)@.active == Some(m.id)
                && final(self)@.queued == old(self)@.queued.drop_first()),
    {
        if self.processing || self.queued.len() == 0 {
            return None;
        }
        let ghost prev = self.queued@;
        let m = self.queued.remove(0);
        proof {
            assert(queued_view(self.queued@) =~= queued_view(prev).drop_first());
            assert(queued_view(prev)[0] == (m.id, m.content@));
            let nq = queued_view(self.queued@);
            let oq = queued_view(prev);
            assert forall|i: int, j: int| 0 <= i < j < nq.len() implies nq[i].0 < nq[j].0 by {
                assert(nq[i] == oq[i + 1]);
                assert(nq[j] == oq[j + 1]);
            }
            assert forall|i: int| 0 <= i < nq.len() implies nq[i].0 < self.next_task_id by {
                assert(nq[i] == oq[i + 1]);
            }
        }
        self.processing = true;
        self.active_task_id = Some(m.id);
        Some(m)
    }

    /// Cancels the running task: its result will be dropped when it
    /// arrives.
    pub fn cancel_active(&mut self) -> (r: Option<u64>)
        requires
            old(self).wf(),
        ensures
            final(self).wf(),
            r == old(self)@.active,
            final(self)@ == (QueueView {
                canceled: match old(self)@.active {
                    Some(a) => if old(self)@.canceled.contains(a) {
                        old(self)@.canceled
                    } else {
                        old(self)@.canceled.push(a)
                    },
                    None => old(self)@.canceled,
                },
                ..old(self)@
            }),
    {
        match self.active_task_id {
            Some(id) => {
                let known = contains_id(&self.canceled, id);
                if !known {
                    self.canceled.push(id);
                }
                Some(id)
            },
            None => None,
        }
    }

    /// A task's result arrived: whether it was cancelled (and is to be
    /// dropped); it is no longer remembered as cancelled.
    pub fn take_canceled(&mut self, task_id: u64) -> (r: bool)
        requires
            old(self).wf(),
        ensures
            final(self).wf(),
            r == old(self)@.canceled.contains(task_id),
            final(self)@ == (QueueView { canceled: old(self)@.canceled.filter(|x: u64| x != task_id), ..old(self)@ }),
    {
        let ghost before = self.canceled@;
        let mut kept: Vec<u64> = Vec::new();
        let mut found = false;
        let mut i: usize = 0;
        assert(before.take(0).filter(|x: u64| x != task_id) =~= Seq::<u64>::empty());
        while i < self.canceled.len()
            invariant
                i <= self.canceled@.len(),
                before == self.canceled@,
                kept@ == before.take(i as int).filter(|x: u64| x != task_id),
                found == before.take(i as int).contains(task_id),
            decreases self.canceled@.len() - i,
        {
            let x = self.canceled[i];
            proof {
                assert(before.take(i + 1) =~= before.take(i as int).push(x));
                before.take(i as int).lemma_filter_push(x, |x: u64| x != task_id);
                assert(before.take(i + 1).contains(task_id) == (before.take(i as int).contains(task_id) || x == task_id)) by {
                    if x == task_id {
                        assert(before.take(i + 1)[i as int] == x);
                    }
                    let it = before.take(i as int);
                    if it.contains(task_id) {
                        let k = choose|k: int| 0 <= k < it.len() && it[k] == task_id;
                        assert(before.take(i + 1)[k] == task_id);
                    }
                    let ip = before.take(i + 1);
                    if ip.contains(task_id) {
                        let k = choose|k: int| 0 <= k < ip.len() && ip[k] == task_id;
                        if k < i {
                            assert(before.take(i as int)[k] == task_id);
                        }
                    }
                }
            }
            if x == task_id {
                found = true;
            } else {
                kept.push(x);
            }
            i = i + 1;
        }
        assert(before.take(before.len() as int) =~= before);
        self.canceled = kept;
        found
    }
}

impl TaskQueue {
    /// `/cancel` with nothing running: drops every waiting message and says
    /// how many there were.
    pub fn clear_waiting(&mut self) -> (r: usize)
        requires
            old(self).wf(),
        ensures
            final(self).wf(),
            r == old(self)@.queued.len(),
            final(self)@ == (QueueView { queued: Seq::empty(), ..old(self)@ }),
    {
        let n = self.queued.len();
        self.queued = Vec::new();
        assert(queued_view(self.queued@) =~= Seq::<(u64, Seq<char>)>::empty());
        n
    }
}

/// The notice of `/cancel` when nothing runs.
pub fn cleared_waiting_notice(count: usize) -> (r: String)
    ensures
        r@ == (if count == 0 {
            "当前没有正在执行或等待中的任务。"@
        } else {
            "已清空等待队列，共移除 "@ + decimal(count as nat) + " 项。"@
        }),
{
    if count == 0 {
        String::from_str("当前没有正在执行或等待中的任务。")
    } else {
        let mut s = String::from_str("已清空等待队列，共移除 ");
        s.append(u64_to_string(count as u64).as_str());
        s.append(" 项。");
        s
    }
}

fn contains_id(v: &Vec<u64>, id: u64) -> (r: bool)
    ensures
        r == v@.contains(id),
{
    let mut i: usize = 0;
    while i < v.len()
        invariant
            i <= v@.len(),
            forall|j: int| 0 <= j < i ==> v@[j] != id,
        decreases v@.len() - i,
    {
        if v[i] == id {
            assert(v@[i as int] == id);
            return true;
        }
        i = i + 1;
    }
    false
}

/// The notice for a message that has to wait.
pub fn waiting_notice(id: u64, ahead: usize) -> (r: String)
    ensures
        r@ == "任务已加入等待队列 #"@ + decimal(id as nat) + "，前方还有 "@ + decimal(ahead as nat) + " 项。"@,
{
    let mut s = String::from_str("任务已加入等待队列 #");
    s.append(u64_to_string(id).as_str());
    s.append("，前方还有 ");
    s.append(u64_to_string(ahead as u64).as_str());
    s.append(" 项。");
    s
}

/// The model a task runs with, as shown: `provider:model`, or the
/// built-in runner when no provider is configured.
pub fn current_model_name(provider: &Option<NamedProviderConfig>) -> (r: String)
    ensures
        r@ == match provider {
            Some(p) => p.name@ + ":"@ + p.config.model@,
            None => "内置执行"@,
        },
{
    match provider {
        Some(p) => {
            let mut s = p.name.clone();
            s.append(":");
            s.append(p.config.model.as_str());
            s
        },
        None => String::from_str("内置执行"),
    }
}

/// The busy line shown while a task runs.
pub fn busy_message(id: u64, model: &str) -> (r: String)
    ensures
        r@ == "正在执行 #"@ + decimal(id as nat) + "，模型 "@ + model@ + "，Esc 取消当前任务"@,
{
    let mut s = String::from_str("正在执行 #");
    s.append(u64_to_string(id).as_str());
    s.append("，模型 ");
    s.append(model);
    s.append("，Esc 取消当前任务");
    s
}

// ---------------------------------------------------------------------
// Laws
// ---------------------------------------------------------------------

/// Messages sent while a task runs start in the order they were sent: the
/// waiting line is ordered by id, and the next to start is the oldest.
pub proof fn law_waiting_line_is_first_in_first_out(q: QueueView, i: int, j: int)
    requires
        queue_wf(q),
        0 <= i < j < q.queued.len(),
    ensures
        q.queued[i].0 < q.queued[j].0,
        q.queued[0].0 <= q.queued[i].0,
{
}

/// A sent message never overtakes one sent before it: when it waits, every
/// message already waiting stays ahead of it.
pub proof fn law_sent_message_waits_behind_earlier_ones(q: QueueView, content: Seq<char>)
    requires
        queue_wf(q),
        q.processing,
    ensures
        forall|i: int| 0 <= i < q.queued.len() ==> #[trigger] q.queued.push((q.next_id, content))[i].0 < q.next_id,
        q.queued.push((q.next_id, content)).last().0 == q.next_id,
{
    assert forall|i: int| 0 <= i < q.queued.len() implies #[trigger] q.queued.push((q.next_id, content))[i].0
        < q.next_id by {
        assert(q.queued.push((q.next_id, content))[i] == q.queued[i]);
    }
}

} // verus!
