//! The `/agents` command: listing the built-in roles, and handing a task to
//! the multi-role orchestrator.

use vstd::prelude::*;
use crate::task_store::strings_view;
use crate::text::{trim, trim_str, starts_with, to_chars, slice_chars, from_chars, starts_with_chars};
use crate::words::{words, split_whitespace};
use crate::service_commands::is_text;
use crate::runner::{join, join_strings};

verus! {

/// What an `/agents` line asks for.
#[derive(Debug)]
pub enum AgentsRequest {
    /// The built-in roles (also for `/agents` alone).
    List,
    /// Hand the given task to the orchestrator.
    Run(String),
    /// `run` without a task.
    RunUsage,
    Usage,
}

pub ghost enum AgentsRequestView {
    List,
    Run(Seq<char>),
    RunUsage,
    Usage,
}

impl View for AgentsRequest {
    type V = AgentsRequestView;

    open spec fn view(&self) -> AgentsRequestView {
        match self {
            AgentsRequest::List => AgentsRequestView::List,
            AgentsRequest::Run(t) => AgentsRequestView::Run(t@),
            AgentsRequest::RunUsage => AgentsRequestView::RunUsage,
            AgentsRequest::Usage => AgentsRequestView::Usage,
        }
    }
}

/// The task of `/agents run <task>`: what follows `/agents run` in the
/// trimmed line, trimmed (nothing when the line does not start so).
pub open spec fn agents_task(t: Seq<char>) -> Seq<char> {
    if starts_with(t, "/agents run"@) { trim(t.skip(11)) } else { Seq::empty() }
}

pub open spec fn agents_request_of(line: Seq<char>) -> AgentsRequestView {
    let t = trim(line);
    let w = words(t);
    let sub = if w.len() > 1 { w[1] } else { Seq::empty() };
    if sub.len() == 0 || sub == "list"@ {
        AgentsRequestView::List
    } else if sub == "run"@ {
        if agents_task(t).len() == 0 { AgentsRequestView::RunUsage } else { AgentsRequestView::Run(agents_task(t)) }
    } else {
        AgentsRequestView::Usage
    }
}

/// Reads an `/agents` line.
pub fn parse_agents_command(line: &str) -> (r: AgentsRequest)
    ensures
        r@ == agents_request_of(line@),
{
    let t = trim_str(line);
    let w = split_whitespace(t.as_str());
    let n = w.len();
    proof {
        if n > 1 {
            assert(strings_view(w@)[1] == w@[1]@);
        }
    }
    if n <= 1 || w[1].as_str().unicode_len() == 0 || is_text(w[1].as_str(), "list") {
        return AgentsRequest::List;
    }
    if !is_text(w[1].as_str(), "run") {
        return AgentsRequest::Usage;
    }
    let c = to_chars(t.as_str());
    let prefix = to_chars("/agents run");
    proof {
        reveal_strlit("/agents run");
    }
    let task = if starts_with_chars(c.as_slice(), prefix.as_slice()) {
        let rest = slice_chars(c.as_slice(), 11, c.len());
        assert(rest@ =~= t@.skip(11));
        trim_str(from_chars(rest.as_slice()).as_str())
    } else {
        String::new()
    };
    if task.as_str().unicode_len() == 0 {
        AgentsRequest::RunUsage
    } else {
        AgentsRequest::Run(task)
    }
}

/// The prompt that hands a task to the orchestrator.
pub fn agents_prompt(task: &str) -> (r: String)
    ensures
        r@ == "ULW[agents=tui] "@ + task@,
{
    let mut s = String::from_str("ULW[agents=tui] ");
    s.append(task);
    s
}

/// The notice shown when the orchestrator starts on a task.
pub fn agents_started_notice(task: &str) -> (r: String)
    ensures
        r@ == "已启动多角色编排执行。系统将按内置角色自动规划并协作完成任务："@ + task@,
{
    let mut s = String::from_str("已启动多角色编排执行。系统将按内置角色自动规划并协作完成任务：");
    s.append(task);
    s
}

/// A built-in role: its id, its stage (when it has one) and its system
/// prompt.
#[derive(Debug)]
pub struct RoleInfo {
    pub id: String,
    pub stage: Option<String>,
    pub system_prompt: String,
}

pub open spec fn role_lines(r: RoleInfo) -> Seq<Seq<char>> {
    seq![
        "- "@ + r.id@ + " ("@ + (match r.stage { Some(s) => s@, None => "Unknown"@ }) + ")"@,
        "  "@ + r.system_prompt@,
    ]
}

pub open spec fn roles_lines(roles: Seq<RoleInfo>) -> Seq<Seq<char>>
    decreases roles.len(),
{
    if roles.len() == 0 {
        Seq::empty()
    } else {
        roles_lines(roles.drop_last()) + role_lines(roles.last())
    }
}

/// The list of built-in roles: a title, each role with its prompt, and the
/// usage line.
pub open spec fn agents_list_lines(roles: Seq<RoleInfo>) -> Seq<Seq<char>> {
    seq!["内置 Agents 角色:"@, Seq::empty()] + roles_lines(roles)
        + seq![Seq::empty(), "用法: /agents list | /agents run <任务描述>"@]
}

fn push_owned(out: &mut Vec<String>, s: String)
    ensures
        strings_view(final(out)@) == strings_view(old(out)@).push(s@),
{
    let ghost prev = out@;
    out.push(s);
    proof {
        prev.lemma_push_map_commute(|x: String| x@, s);
    }
}

/// Executable `agents_list_lines`, joined into one message.
pub fn agents_list_text(roles: &Vec<RoleInfo>) -> (r: String)
    ensures
        r@ == join(agents_list_lines(roles@), "\n"@),
{
    let mut lines: Vec<String> = Vec::new();
    push_owned(&mut lines, String::from_str("内置 Agents 角色:"));
    push_owned(&mut lines, String::new());
    let ghost head = strings_view(lines@);
    let mut i: usize = 0;
    assert(roles@.take(0) =~= Seq::<RoleInfo>::empty());
    assert(head + roles_lines(roles@.take(0)) =~= head);
    while i < roles.len()
        invariant
            i <= roles@.len(),
            strings_view(lines@) == head + roles_lines(roles@.take(i as int)),
        decreases roles@.len() - i,
    {
        let r = &roles[i];
        let mut a = String::from_str("- ");
        a.append(r.id.as_str());
        a.append(" (");
        match &r.stage {
            Some(s) => a.append(s.as_str()),
            None => a.append("Unknown"),
        }
        a.append(")");
        let mut b = String::from_str("  ");
        b.append(r.system_prompt.as_str());
        push_owned(&mut lines, a);
        push_owned(&mut lines, b);
        proof {
            assert(roles@.take(i + 1).drop_last() =~= roles@.take(i as int));
            assert(roles@.take(i + 1).last() == roles@[i as int]);
            assert(strings_view(lines@) =~= head + roles_lines(roles@.take(i + 1)));
        }
        i = i + 1;
    }
    assert(roles@.take(roles@.len() as int) =~= roles@);
    push_owned(&mut lines, String::new());
    push_owned(&mut lines, String::from_str("用法: /agents list | /agents run <任务描述>"));
    assert(strings_view(lines@) =~= agents_list_lines(roles@));
    join_strings(&lines, "\n")
}

} // verus!
