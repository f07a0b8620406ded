//! The `/tools` message: the available tools grouped by kind.

use vstd::prelude::*;
use crate::task_store::strings_view;
use crate::text::{trim, trim_str, contains, starts_with, to_chars, contains_chars, starts_with_chars, decimal, u64_to_string};
use crate::runner::{join, join_strings};

verus! {

/// A tool as the registry describes it: its name and, when it has one,
/// its description.
#[derive(Debug)]
pub struct ToolInfo {
    pub name: String,
    pub description: Option<String>,
}

/// The line of a tool: `  name - description`.
pub open spec fn tool_line(t: ToolInfo) -> Seq<char> {
    "  "@ + t.name@ + match t.description {
        Some(d) => " - "@ + d@,
        None => Seq::empty(),
    }
}

pub open spec fn tool_lines(v: Seq<ToolInfo>) -> Seq<Seq<char>> {
    v.map_values(|t: ToolInfo| tool_line(t))
}

/// The groups, in the order shown.
pub open spec fn category_name(k: int) -> Seq<char> {
    if k == 0 { "文件操作"@ } else if k == 1 { "Shell"@ } else if k == 2 { "Git"@ } else { "网络"@ }
}

/// The tool-name prefixes of each group.
pub open spec fn category_prefixes(k: int) -> Seq<Seq<char>> {
    if k == 0 {
        seq!["fs.read"@, "fs.write"@, "fs.search"@]
    } else if k == 1 {
        seq!["shell.exec"@]
    } else if k == 2 {
        seq!["git.diff"@]
    } else {
        seq!["web.fetch"@, "web.search"@]
    }
}

/// A line belongs to a group when it starts with one of the group's names
/// (after the indent).
pub open spec fn in_category(line: Seq<char>, k: int) -> bool {
    exists|i: int| 0 <= i < category_prefixes(k).len() && #[trigger] starts_with(line, "  "@ + category_prefixes(k)[i])
}

/// The block of a group: its title and lines, when it has any.
pub open spec fn category_block(lines: Seq<Seq<char>>, k: int) -> Seq<char> {
    let c = lines.filter(|l: Seq<char>| in_category(l, k));
    if c.len() > 0 { "\n"@ + category_name(k) + ":\n"@ + join(c, "\n"@) + "\n"@ } else { Seq::empty() }
}

pub open spec fn categorized(lines: Seq<Seq<char>>) -> Seq<char> {
    category_block(lines, 0) + category_block(lines, 1) + category_block(lines, 2) + category_block(lines, 3)
}

/// The grouped text, with the lines not found in any group's text under
/// `其他`.
pub open spec fn grouped(lines: Seq<Seq<char>>) -> Seq<char> {
    let c = categorized(lines);
    let o = lines.filter(|l: Seq<char>| !contains(c, l));
    c + if o.len() > 0 { "\n其他:\n"@ + join(o, "\n"@) + "\n"@ } else { Seq::empty() }
}

/// The `/tools` message.
pub open spec fn tools_message(tools: Seq<ToolInfo>) -> Seq<char> {
    "可用工具 ("@ + decimal(tools.len()) + " 个):\n"@ + trim(grouped(tool_lines(tools)))
        + "\n\n内置工具由 runtime 自动注册。\nSkills 和 MCP 工具根据配置动态加载。"@
}

fn prefixes_of(k: usize) -> (r: Vec<&'static str>)
    requires
        k < 4,
    ensures
        r@.len() == category_prefixes(k as int).len(),
        forall|i: int| 0 <= i < r@.len() ==> r@[i]@ == category_prefixes(k as int)[i],
{
    if k == 0 {
        vec!["fs.read", "fs.write", "fs.search"]
    } else if k == 1 {
        vec!["shell.exec"]
    } else if k == 2 {
        vec!["git.diff"]
    } else {
        vec!["web.fetch", "web.search"]
    }
}

fn category_title(k: usize) -> (r: &'static str)
    requires
        k < 4,
    ensures
        r@ == category_name(k as int),
{
    if k == 0 { "文件操作" } else if k == 1 { "Shell" } else if k == 2 { "Git" } else { "网络" }
}

fn line_in_category(line: &str, k: usize) -> (r: bool)
    requires
        k < 4,
    ensures
        r == in_category(line@, k as int),
{
    let ps = prefixes_of(k);
    let c = to_chars(line);
    let mut i: usize = 0;
    while i < ps.len()
        invariant
            i <= ps@.len(),
            k < 4,
            c@ == line@,
            ps@.len() == category_prefixes(k as int).len(),
            forall|j: int| 0 <= j < ps@.len() ==> ps@[j]@ == category_prefixes(k as int)[j],
            forall|j: int| 0 <= j < i ==> !starts_with(line@, "  "@ + category_prefixes(k as int)[j]),
        decreases ps@.len() - i,
    {
        let mut p = String::from_str("  ");
        p.append(ps[i]);
        let pc = to_chars(p.as_str());
        if starts_with_chars(c.as_slice(), pc.as_slice()) {
            assert(starts_with(line@, "  "@ + category_prefixes(k as int)[i as int]));
            return true;
        }
        i = i + 1;
    }
    false
}

fn push_owned(out: &mut Vec<String>, s: String)
    ensures
        strings_view(final(out)@) == strings_view(old(out)@).push(s@),
{
    let ghost prev = out@;
    out.push(s);
    proof {
        prev.lemma_push_map_commute(|x: String| x@, s);
    }
}

fn lines_in_category(lines: &Vec<String>, k: usize) -> (r: Vec<String>)
    requires
        k < 4,
    ensures
        strings_view(r@) == strings_view(lines@).filter(|l: Seq<char>| in_category(l, k as int)),
{
    let ghost all = strings_view(lines@);
    let mut out: Vec<String> = Vec::new();
    let mut i: usize = 0;
    assert(all.take(0).filter(|l: Seq<char>| in_category(l, k as int)) =~= Seq::<Seq<char>>::empty());
    while i < lines.len()
        invariant
            i <= lines@.len(),
            k < 4,
            all == strings_view(lines@),
            strings_view(out@) == all.take(i as int).filter(|l: Seq<char>| in_category(l, k as int)),
        decreases lines@.len() - i,
    {
        proof {
            assert(all.take(i + 1) =~= all.take(i as int).push(all[i as int]));
            all.take(i as int).lemma_filter_push(all[i as int], |l: Seq<char>| in_category(l, k as int));
            assert(all[i as int] == lines@[i as int]@);
        }
        if line_in_category(lines[i].as_str(), k) {
            push_owned(&mut out, lines[i].clone());
        }
        i = i + 1;
    }
    assert(all.take(all.len() as int) =~= all);
    out
}

fn block_text(lines: &Vec<String>, k: usize) -> (r: String)
    requires
        k < 4,
    ensures
        r@ == category_block(strings_view(lines@), k as int),
{
    let c = lines_in_category(lines, k);
    if c.len() > 0 {
        let mut s = String::from_str("\n");
        s.append(category_title(k));
        s.append(":\n");
        s.append(join_strings(&c, "\n").as_str());
        s.append("\n");
        s
    } else {
        String::new()
    }
}

fn other_lines(lines: &Vec<String>, grouped_text: &str) -> (r: Vec<String>)
    ensures
        strings_view(r@) == strings_view(lines@).filter(|l: Seq<char>| !contains(grouped_text@, l)),
{
    let ghost all = strings_view(lines@);
    let hay = to_chars(grouped_text);
    let mut out: Vec<String> = Vec::new();
    let mut i: usize = 0;
    assert(all.take(0).filter(|l: Seq<char>| !contains(grouped_text@, l)) =~= Seq::<Seq<char>>::empty());
    while i < lines.len()
        invariant
            i <= lines@.len(),
            hay@ == grouped_text@,
            all == strings_view(lines@),
            strings_view(out@) == all.take(i as int).filter(|l: Seq<char>| !contains(grouped_text@, l)),
        decreases lines@.len() - i,
    {
        proof {
            assert(all.take(i + 1) =~= all.take(i as int).push(all[i as int]));
            all.take(i as int).lemma_filter_push(all[i as int], |l: Seq<char>| !contains(grouped_text@, l));
            assert(all[i as int] == lines@[i as int]@);
        }
        let l = to_chars(lines[i].as_str());
        if !contains_chars(hay.as_slice(), l.as_slice()) {
            push_owned(&mut out, lines[i].clone());
        }
        i = i + 1;
    }
    assert(all.take(all.len() as int) =~= all);
    out
}

fn tool_line_text(t: &ToolInfo) -> (r: String)
    ensures
        r@ == tool_line(*t),
{
    let mut s = String::from_str("  ");
    s.append(t.name.as_str());
    match &t.description {
        Some(d) => {
            s.append(" - ");
            s.append(d.as_str());
        },
        None => {},
    }
    s
}

/// Executable `tools_message`.
pub fn tools_text(tools: &Vec<ToolInfo>) -> (r: String)
    requires
        tools@.len() <= u64::MAX,
    ensures
        r@ == tools_message(tools@),
{
    let mut lines: Vec<String> = Vec::new();
    let mut i: usize = 0;
    while i < tools.len()
        invariant
            i <= tools@.len(),
            strings_view(lines@) == tool_lines(tools@.take(i as int)),
        decreases tools@.len() - i,
    {
        let s = tool_line_text(&tools[i]);
        push_owned(&mut lines, s);
        proof {
            assert(tool_lines(tools@.take(i + 1)) =~= tool_lines(tools@.take(i as int)).push(tool_line(tools@[i as int])));
        }
        i = i + 1;
    }
    assert(tools@.take(tools@.len() as int) =~= tools@);
    let mut g = block_text(&lines, 0);
    g.append(block_text(&lines, 1).as_str());
    g.append(block_text(&lines, 2).as_str());
    g.append(block_text(&lines, 3).as_str());
    let ghost cat = g@;
    assert(cat == categorized(strings_view(lines@)));
    let others = other_lines(&lines, g.as_str());
    if others.len() > 0 {
        g.append("\n其他:\n");
        g.append(join_strings(&others, "\n").as_str());
        g.append("\n");
    }
    assert(g@ == grouped(strings_view(lines@)));
    let mut out = String::from_str("可用工具 (");
    out.append(u64_to_string(tools.len() as u64).as_str());
    out.append(" 个):\n");
    out.append(trim_str(g.as_str()).as_str());
    out.append("\n\n内置工具由 runtime 自动注册。\nSkills 和 MCP 工具根据配置动态加载。");
    out
}

} // verus!
