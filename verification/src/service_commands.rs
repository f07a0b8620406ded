//! The `/mcps` and `/skills` command lines.

use vstd::prelude::*;
use crate::task_store::strings_view;
use crate::words::{words, split_whitespace};
use crate::runner::{join, join_strings};

verus! {

pub(crate) fn is_text(a: &str, b: &str) -> (r: bool)
    ensures
        r == (a@ == b@),
{
    crate::text::chars_eq(crate::text::to_chars(a).as_slice(), crate::text::to_chars(b).as_slice())
}

/// What a `/mcps` line asks for.
#[derive(Debug)]
pub enum McpRequest {
    /// The server picker (also for `list`).
    List,
    /// Show the named server, or pick one to show.
    Show(Option<String>),
    /// Remove the named server, or pick one to remove.
    Remove(Option<String>),
    Usage,
}

pub ghost enum McpRequestView {
    List,
    Show(Option<Seq<char>>),
    Remove(Option<Seq<char>>),
    Usage,
}

impl View for McpRequest {
    type V = McpRequestView;

    open spec fn view(&self) -> McpRequestView {
        match self {
            McpRequest::List => McpRequestView::List,
            McpRequest::Show(n) => McpRequestView::Show(crate::task_store::opt_view(*n)),
            McpRequest::Remove(n) => McpRequestView::Remove(crate::task_store::opt_view(*n)),
            McpRequest::Usage => McpRequestView::Usage,
        }
    }
}

pub open spec fn mcp_request_of(w: Seq<Seq<char>>) -> McpRequestView {
    let name = if w.len() > 2 { Some(w[2]) } else { None };
    if w.len() <= 1 || w[1] == "list"@ {
        McpRequestView::List
    } else if w[1] == "show"@ {
        McpRequestView::Show(name)
    } else if w[1] == "remove"@ {
        McpRequestView::Remove(name)
    } else {
        McpRequestView::Usage
    }
}

/// Reads a `/mcps` line.
pub fn parse_mcp_command(line: &str) -> (r: McpRequest)
    ensures
        r@ == mcp_request_of(words(line@)),
{
    let w = split_whitespace(line);
    let n = w.len();
    proof {
        if n > 1 {
            assert(strings_view(w@)[1] == w@[1]@);
        }
        if n > 2 {
            assert(strings_view(w@)[2] == w@[2]@);
        }
    }
    let name = if n > 2 { Some(w[2].clone()) } else { None };
    if n <= 1 || is_text(w[1].as_str(), "list") {
        McpRequest::List
    } else if is_text(w[1].as_str(), "show") {
        McpRequest::Show(name)
    } else if is_text(w[1].as_str(), "remove") {
        McpRequest::Remove(name)
    } else {
        McpRequest::Usage
    }
}

/// What a `/skills` line asks for.
#[derive(Debug)]
pub enum SkillsRequest {
    /// The skill picker (also for `list`).
    List,
    /// Show the named skill, or pick one to show.
    Show(Option<String>),
    /// Run the named skill with the rest of the line as its input, or pick
    /// one to run.
    Run(Option<(String, String)>),
    /// Save a project skill: name, description and prompt (the rest of the
    /// line).
    Add(String, String, String),
    AddUsage,
    /// Remove the named skill, or pick one to remove.
    Remove(Option<String>),
    Usage,
}

pub ghost enum SkillsRequestView {
    List,
    Show(Option<Seq<char>>),
    Run(Option<(Seq<char>, Seq<char>)>),
    Add(Seq<char>, Seq<char>, Seq<char>),
    AddUsage,
    Remove(Option<Seq<char>>),
    Usage,
}

impl View for SkillsRequest {
    type V = SkillsRequestView;

    open spec fn view(&self) -> SkillsRequestView {
        match self {
            SkillsRequest::List => SkillsRequestView::List,
            SkillsRequest::Show(n) => SkillsRequestView::Show(crate::task_store::opt_view(*n)),
            SkillsRequest::Run(x) => SkillsRequestView::Run(
                match x {
                    Some((a, b)) => Some((a@, b@)),
                    None => None,
                },
            ),
            SkillsRequest::Add(a, b, c) => SkillsRequestView::Add(a@, b@, c@),
            SkillsRequest::AddUsage => SkillsRequestView::AddUsage,
            SkillsRequest::Remove(n) => SkillsRequestView::Remove(crate::task_store::opt_view(*n)),
            SkillsRequest::Usage => SkillsRequestView::Usage,
        }
    }
}

/// The words from index `k` on, joined by single blanks.
pub open spec fn rest_from(w: Seq<Seq<char>>, k: int) -> Seq<char> {
    if k < w.len() { join(w.skip(k), " "@) } else { Seq::empty() }
}

pub open spec fn skills_request_of(w: Seq<Seq<char>>) -> SkillsRequestView {
    let name = if w.len() > 2 { Some(w[2]) } else { None };
    if w.len() <= 1 || w[1] == "list"@ {
        SkillsRequestView::List
    } else if w[1] == "show"@ {
        SkillsRequestView::Show(name)
    } else if w[1] == "run"@ {
        match name {
            Some(n) => SkillsRequestView::Run(Some((n, rest_from(w, 3)))),
            None => SkillsRequestView::Run(None),
        }
    } else if w[1] == "add"@ {
        if w.len() >= 5 {
            SkillsRequestView::Add(w[2], w[3], rest_from(w, 4))
        } else {
            SkillsRequestView::AddUsage
        }
    } else if w[1] == "remove"@ {
        SkillsRequestView::Remove(name)
    } else {
        SkillsRequestView::Usage
    }
}

/// The words from index `k` on, joined by single blanks.
pub(crate) fn rest_words(w: &Vec<String>, k: usize) -> (r: String)
    ensures
        r@ == rest_from(strings_view(w@), k as int),
{
    if k >= w.len() {
        return String::new();
    }
    let mut tail: Vec<String> = Vec::new();
    let mut i = k;
    let ghost all = strings_view(w@).skip(k as int);
    assert(strings_view(tail@) =~= all.take(0));
    while i < w.len()
        invariant
            k <= i <= w@.len(),
            all == strings_view(w@).skip(k as int),
            strings_view(tail@) == all.take(i - k),
        decreases w@.len() - i,
    {
        let ghost prev = tail@;
        let x = w[i].clone();
        tail.push(x);
        proof {
            prev.lemma_push_map_commute(|s: String| s@, x);
            assert(all.take(i - k + 1) =~= all.take(i - k).push(all[i - k]));
        }
        i = i + 1;
    }
    assert(all.take(w@.len() - k) =~= all);
    join_strings(&tail, " ")
}

/// Reads a `/skills` line.
pub fn parse_skills_command(line: &str) -> (r: SkillsRequest)
    ensures
        r@ == skills_request_of(words(line@)),
{
    let w = split_whitespace(line);
    let n = w.len();
    proof {
        if n > 1 {
            assert(strings_view(w@)[1] == w@[1]@);
        }
        if n > 2 {
            assert(strings_view(w@)[2] == w@[2]@);
        }
        if n > 3 {
            assert(strings_view(w@)[3] == w@[3]@);
        }
    }
    let name = if n > 2 { Some(w[2].clone()) } else { None };
    if n <= 1 || is_text(w[1].as_str(), "list") {
        SkillsRequest::List
    } else if is_text(w[1].as_str(), "show") {
        SkillsRequest::Show(name)
    } else if is_text(w[1].as_str(), "run") {
        match name {
            Some(x) => SkillsRequest::Run(Some((x, rest_words(&w, 3)))),
            None => SkillsRequest::Run(None),
        }
    } else if is_text(w[1].as_str(), "add") {
        if n >= 5 {
            SkillsRequest::Add(w[2].clone(), w[3].clone(), rest_words(&w, 4))
        } else {
            SkillsRequest::AddUsage
        }
    } else if is_text(w[1].as_str(), "remove") {
        SkillsRequest::Remove(name)
    } else {
        SkillsRequest::Usage
    }
}


// ---------------------------------------------------------------------
// MCP server texts
// ---------------------------------------------------------------------

/// The details of a configured MCP server.
pub fn mcp_details_text(name: &str, server_type: &str, enabled: bool, url: &str) -> (r: String)
    ensures
        r@ == "Name: "@ + name@ + "\nType: "@ + server_type@ + "\nEnabled: "@ + (if enabled { "true"@ } else { "false"@ })
            + "\nURL: "@ + url@,
{
    let mut s = String::from_str("Name: ");
    s.append(name);
    s.append("\nType: ");
    s.append(server_type);
    s.append("\nEnabled: ");
    s.append(if enabled { "true" } else { "false" });
    s.append("\nURL: ");
    s.append(url);
    s
}

/// The label of a server in the picker: its URL and, in brackets, the file
/// it is configured in.
pub fn mcp_option_label(url: &str, source_label: &str) -> (r: String)
    ensures
        r@ == url@ + " ["@ + source_label@ + "]"@,
{
    let mut s = String::from_str(url);
    s.append(" [");
    s.append(source_label);
    s.append("]");
    s
}

/// What picking a server does: remove it when the picker was opened to
/// remove one, else show it.
#[derive(Debug, Clone, Copy, PartialEq, Eq, Structural)]
pub enum McpChoice {
    Show,
    Remove,
}

pub fn mcp_choice(pending_action: Option<&str>) -> (r: McpChoice)
    ensures
        r == (match pending_action {
            Some(a) => if a@ == "remove"@ { McpChoice::Remove } else { McpChoice::Show },
            None => McpChoice::Show,
        }),
{
    match pending_action {
        Some(a) => if is_text(a, "remove") { McpChoice::Remove } else { McpChoice::Show },
        None => McpChoice::Show,
    }
}

/// The text shown for a picked server.
pub fn mcp_choice_text(name: &str, label: &str, enabled: bool) -> (r: String)
    ensures
        r@ == "MCP 服务: "@ + name@ + "\nURL: "@ + label@ + "\n状态: "@ + (if enabled { "启用"@ } else { "禁用"@ }),
{
    let mut s = String::from_str("MCP 服务: ");
    s.append(name);
    s.append("\nURL: ");
    s.append(label);
    s.append("\n状态: ");
    s.append(if enabled { "启用" } else { "禁用" });
    s
}

} // verus!
