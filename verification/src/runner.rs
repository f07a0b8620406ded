//! Pieces of the task runner's output that do not depend on the model
//! runtime: tool results, the stream event kinds, text previews and the
//! summary of learned facts.

use vstd::prelude::*;
use crate::learning::{LearnedFact, LearnedKind, FactView, facts_view};
use crate::text::{decimal, u64_to_string, trim, trim_str, to_chars, from_chars};

verus! {

/// The kind of a streamed piece of model output.
#[derive(Debug, Clone, Copy, PartialEq, Eq, Structural)]
pub enum StreamEventKind {
    Message,
    Thinking,
}

/// The outcome of one tool call.
#[derive(Debug)]
pub struct ToolResult {
    pub iteration: usize,
    pub step_id: usize,
    pub name: String,
    pub success: bool,
    pub summary: String,
}

/// How many facts are of this kind.
pub open spec fn kind_count(s: Seq<FactView>, k: LearnedKind) -> nat
    decreases s.len(),
{
    if s.len() == 0 {
        0
    } else {
        kind_count(s.drop_last(), k) + if s.last().kind == k { 1nat } else { 0nat }
    }
}

/// `"<label> <n> 条"` when `n > 0`.
pub open spec fn count_part(label: Seq<char>, n: nat) -> Seq<Seq<char>> {
    if n > 0 {
        seq![label + " "@ + decimal(n) + " 条"@]
    } else {
        Seq::empty()
    }
}

/// The pieces joined with a separator.
pub open spec fn join(parts: Seq<Seq<char>>, sep: Seq<char>) -> Seq<char>
    decreases parts.len(),
{
    if parts.len() == 0 {
        Seq::empty()
    } else if parts.len() == 1 {
        parts[0]
    } else {
        join(parts.drop_last(), sep) + sep + parts.last()
    }
}

/// The one-line summary of the facts written to the project wiki.
pub open spec fn facts_summary(s: Seq<FactView>) -> Option<Seq<char>> {
    if s.len() == 0 {
        None
    } else {
        let parts = count_part("偏好"@, kind_count(s, LearnedKind::Preference)) + count_part(
            "流程"@,
            kind_count(s, LearnedKind::Workflow),
        ) + count_part("决策"@, kind_count(s, LearnedKind::Decision));
        Some("本轮已写入项目 wiki："@ + join(parts, "，"@))
    }
}

fn count_kind(facts: &[LearnedFact], k: LearnedKind) -> (r: u64)
    ensures
        r == kind_count(facts_view(facts@), k),
{
    let ghost all = facts_view(facts@);
    let mut n: u64 = 0;
    let mut i: usize = 0;
    assert(all.take(0) =~= Seq::<FactView>::empty());
    while i < facts.len()
        invariant
            i <= facts@.len(),
            all == facts_view(facts@),
            n == kind_count(all.take(i as int), k),
            n <= i,
        decreases facts@.len() - i,
    {
        assert(all.take(i + 1).drop_last() =~= all.take(i as int));
        assert(all.take(i + 1).last() == facts@[i as int]@);
        if facts[i].kind == k {
            n = n + 1;
        }
        i = i + 1;
    }
    assert(all.take(all.len() as int) =~= all);
    n
}

fn push_part(out: &mut Vec<String>, label: &str, n: u64)
    ensures
        crate::task_store::strings_view(final(out)@) == crate::task_store::strings_view(old(out)@)
            + count_part(label@, n as nat),
{
    if n > 0 {
        let mut s = String::from_str(label);
        s.append(" ");
        let d = u64_to_string(n);
        s.append(d.as_str());
        s.append(" 条");
        let ghost prev = out@;
        out.push(s);
        proof {
            prev.lemma_push_map_commute(|x: String| x@, s);
        }
        assert(crate::task_store::strings_view(out@) =~= crate::task_store::strings_view(prev)
            + count_part(label@, n as nat));
    } else {
        assert(crate::task_store::strings_view(out@) =~= crate::task_store::strings_view(out@)
            + count_part(label@, n as nat));
    }
}

/// Joins strings with a separator.
pub fn join_strings(parts: &Vec<String>, sep: &str) -> (r: String)
    ensures
        r@ == join(crate::task_store::strings_view(parts@), sep@),
{
    let ghost all = crate::task_store::strings_view(parts@);
    let mut out = String::new();
    let mut i: usize = 0;
    assert(all.take(0) =~= Seq::<Seq<char>>::empty());
    while i < parts.len()
        invariant
            i <= parts@.len(),
            all == crate::task_store::strings_view(parts@),
            out@ == join(all.take(i as int), sep@),
        decreases parts@.len() - i,
    {
        assert(all.take(i + 1).drop_last() =~= all.take(i as int));
        assert(all[i as int] == parts@[i as int]@);
        if i > 0 {
            out.append(sep);
        }
        out.append(parts[i].as_str());
        proof {
            if i == 0 {
                assert(all.take(1) =~= seq![all[0]]);
            }
        }
        i = i + 1;
    }
    assert(all.take(all.len() as int) =~= all);
    out
}

/// The one-line summary of the facts written to the project wiki, counted
/// by kind (preferences, workflows, decisions; kinds with none left out).
pub fn format_learned_facts_summary(facts: &[LearnedFact]) -> (r: Option<String>)
    ensures
        match r {
            Some(s) => facts_summary(facts_view(facts@)) == Some(s@),
            None => facts_summary(facts_view(facts@)) is None,
        },
{
    if facts.len() == 0 {
        return None;
    }
    let p = count_kind(facts, LearnedKind::Preference);
    let w = count_kind(facts, LearnedKind::Workflow);
    let d = count_kind(facts, LearnedKind::Decision);
    let mut parts: Vec<String> = Vec::new();
    assert(crate::task_store::strings_view(parts@) =~= Seq::<Seq<char>>::empty());
    push_part(&mut parts, "偏好", p);
    push_part(&mut parts, "流程", w);
    push_part(&mut parts, "决策", d);
    let joined = join_strings(&parts, "，");
    let mut s = String::from_str("本轮已写入项目 wiki：");
    s.append(joined.as_str());
    Some(s)
}

/// At most 80 characters of the trimmed text, with `...` when cut.
pub open spec fn preview_text(input: Seq<char>) -> Seq<char> {
    let t = trim(input);
    if t.len() > 80 {
        t.take(80) + "..."@
    } else {
        t
    }
}

/// A short preview of a tool's output.
pub fn preview(input: &str) -> (r: String)
    ensures
        r@ == preview_text(input@),
{
    let t = to_chars(trim_str(input).as_str());
    if t.len() > 80 {
        let head = crate::text::slice_chars(&t, 0, 80);
        assert(head@ =~= t@.take(80));
        let mut s = from_chars(&head);
        s.append("...");
        s
    } else {
        from_chars(&t)
    }
}


/// The trimmed text, cut after `n` characters (marked with `...`).
pub open spec fn preview_within(input: Seq<char>, n: nat) -> Seq<char> {
    let t = trim(input);
    if t.len() > n {
        t.take(n as int) + "..."@
    } else {
        t
    }
}

/// Executable `preview_within`.
pub fn preview_limited(input: &str, limit: usize) -> (r: String)
    ensures
        r@ == preview_within(input@, limit as nat),
{
    let t = to_chars(trim_str(input).as_str());
    if t.len() > limit {
        let head = crate::text::slice_chars(&t, 0, limit);
        assert(head@ =~= t@.take(limit as int));
        let mut s = from_chars(&head);
        s.append("...");
        s
    } else {
        from_chars(&t)
    }
}

/// A duration in whole milliseconds, capped at `u64::MAX`.
pub fn elapsed_ms(millis: u128) -> (r: u64)
    ensures
        r == (if millis <= u64::MAX as u128 { millis as int } else { u64::MAX as int }),
{
    if millis <= u64::MAX as u128 {
        millis as u64
    } else {
        u64::MAX
    }
}


// ---------------------------------------------------------------------
// Preparing a run
// ---------------------------------------------------------------------

/// The prompt of a run: with what was piped on standard input appended
/// under a `--- stdin ---` line.
pub open spec fn prompt_with_stdin_of(prompt: Seq<char>, stdin: Option<Seq<char>>) -> Seq<char> {
    match stdin {
        Some(s) => prompt + "\n\n--- stdin ---\n"@ + s,
        None => prompt,
    }
}

/// Executable `prompt_with_stdin_of`.
pub fn prompt_with_stdin(prompt: &str, stdin: Option<&str>) -> (r: String)
    ensures
        r@ == prompt_with_stdin_of(prompt@, match stdin { Some(s) => Some(s@), None => None }),
{
    let mut s = String::from_str(prompt);
    match stdin {
        Some(x) => {
            s.append("\n\n--- stdin ---\n");
            s.append(x);
        },
        None => {},
    }
    s
}

/// The system prompt with the user's output style and insight appended,
/// each under its own heading, when there are any.
pub open spec fn system_prompt_of(base: Seq<char>, style: Option<Seq<char>>, insight: Option<Seq<char>>) -> Seq<char> {
    base + match style {
        Some(s) => "\n\n[User Style]\n"@ + s,
        None => Seq::empty(),
    } + match insight {
        Some(i) => "\n\n[User Insight]\n"@ + i,
        None => Seq::empty(),
    }
}

/// Executable `system_prompt_of`.
pub fn system_prompt_with(base: &str, style: Option<&str>, insight: Option<&str>) -> (r: String)
    ensures
        r@ == system_prompt_of(
            base@,
            match style { Some(s) => Some(s@), None => None },
            match insight { Some(i) => Some(i@), None => None },
        ),
{
    let mut s = String::from_str(base);
    let ghost b = s@;
    match style {
        Some(x) => {
            s.append("\n\n[User Style]\n");
            s.append(x);
        },
        None => {},
    }
    let ghost with_style = s@;
    assert(with_style == b + match style {
        Some(x) => "\n\n[User Style]\n"@ + x@,
        None => Seq::<char>::empty(),
    });
    match insight {
        Some(x) => {
            s.append("\n\n[User Insight]\n");
            s.append(x);
        },
        None => {},
    }
    s
}

/// The strings with each run of equal neighbours cut to one.
pub open spec fn dedup_strs(s: Seq<Seq<char>>) -> Seq<Seq<char>>
    decreases s.len(),
{
    if s.len() == 0 {
        s
    } else {
        let t = dedup_strs(s.drop_last());
        if t.len() > 0 && t.last() == s.last() { t } else { t.push(s.last()) }
    }
}

/// The tool names as a run lists them: sorted, each once.
pub fn tool_name_list(names: &Vec<String>) -> (r: Vec<String>)
    ensures
        crate::task_store::strings_view(r@) == dedup_strs(crate::order::sort_strs(crate::task_store::strings_view(names@))),
{
    let sorted = crate::order::sort_strings(names);
    let ghost all = crate::task_store::strings_view(sorted@);
    let mut out: Vec<String> = Vec::new();
    let mut i: usize = 0;
    assert(all.take(0) =~= Seq::<Seq<char>>::empty());
    while i < sorted.len()
        invariant
            i <= sorted@.len(),
            all == crate::task_store::strings_view(sorted@),
            crate::task_store::strings_view(out@) == dedup_strs(all.take(i as int)),
        decreases sorted@.len() - i,
    {
        proof {
            assert(all.take(i + 1).drop_last() =~= all.take(i as int));
            assert(all.take(i + 1).last() == sorted@[i as int]@);
        }
        let n = out.len();
        let same = n > 0 && crate::text::chars_eq(
            to_chars(out[n - 1].as_str()).as_slice(),
            to_chars(sorted[i].as_str()).as_slice(),
        );
        if !same {
            let x = sorted[i].clone();
            let ghost prev = out@;
            out.push(x);
            proof {
                prev.lemma_push_map_commute(|s: String| s@, x);
            }
        } else {
            proof {
                assert(crate::task_store::strings_view(out@).last() == out@[n - 1]@);
            }
        }
        i = i + 1;
    }
    assert(all.take(all.len() as int) =~= all);
    out
}

/// Where the routed model is among the candidates: the first with that
/// provider and model name.
pub fn find_route_candidate(candidates: &Vec<(String, String)>, provider: &str, model: &str) -> (r: Option<usize>)
    ensures
        match r {
            Some(i) => i < candidates@.len() && candidates@[i as int].0@ == provider@ && candidates@[i as int].1@ == model@
                && forall|j: int| 0 <= j < i ==> !(candidates@[j].0@ == provider@ && candidates@[j].1@ == model@),
            None => forall|j: int| 0 <= j < candidates@.len() ==> !(candidates@[j].0@ == provider@ && candidates@[j].1@ == model@),
        },
{
    let mut i: usize = 0;
    while i < candidates.len()
        invariant
            i <= candidates@.len(),
            forall|j: int| 0 <= j < i ==> !(candidates@[j].0@ == provider@ && candidates@[j].1@ == model@),
        decreases candidates@.len() - i,
    {
        let (p, m) = &candidates[i];
        if crate::service_commands::is_text(p.as_str(), provider) && crate::service_commands::is_text(m.as_str(), model) {
            return Some(i);
        }
        i = i + 1;
    }
    None
}

/// An MCP tool's input: each field named here carries the prompt.
#[derive(Debug)]
pub struct McpInput {
    pub fields: Vec<String>,
    pub prompt: String,
}

/// The argument names under which a tool may take the prompt, in the
/// order they are tried.
pub open spec fn prompt_field_names() -> Seq<Seq<char>> {
    seq!["query"@, "prompt"@, "input"@, "text"@, "task"@, "keyword"@]
}

/// The names of `names` that `props` holds, in the order of `names`.
pub open spec fn present_names(names: Seq<Seq<char>>, props: Seq<Seq<char>>) -> Seq<Seq<char>>
    decreases names.len(),
{
    if names.len() == 0 {
        names
    } else {
        let t = present_names(names.drop_last(), props);
        if props.contains(names.last()) { t.push(names.last()) } else { t }
    }
}

/// The fields that get the prompt: the candidate names that the schema's
/// properties declare, or `query` alone when it declares none of them or
/// has no properties.
pub open spec fn mcp_input_fields(props: Option<Seq<Seq<char>>>) -> Seq<Seq<char>> {
    let found = match props {
        Some(p) => present_names(prompt_field_names(), p),
        None => Seq::empty(),
    };
    if found.len() == 0 { seq!["query"@] } else { found }
}

fn has_name(names: &Vec<String>, name: &str) -> (r: bool)
    ensures
        r == crate::task_store::strings_view(names@).contains(name@),
{
    let ghost all = crate::task_store::strings_view(names@);
    let mut i: usize = 0;
    while i < names.len()
        invariant
            i <= names@.len(),
            all == crate::task_store::strings_view(names@),
            forall|j: int| 0 <= j < i ==> all[j] != name@,
        decreases names@.len() - i,
    {
        if crate::service_commands::is_text(names[i].as_str(), name) {
            assert(all[i as int] == name@);
            return true;
        }
        i = i + 1;
    }
    false
}

/// The input for an MCP tool from its input schema's property names
/// (`None` when the schema has no `properties` object) and the prompt.
pub fn build_mcp_input(properties: &Option<Vec<String>>, prompt: &str) -> (r: McpInput)
    ensures
        crate::task_store::strings_view(r.fields@) == mcp_input_fields(
            match properties {
                Some(v) => Some(crate::task_store::strings_view(v@)),
                None => None,
            },
        ),
        r.prompt@ == prompt@,
{
    let mut names: Vec<String> = Vec::new();
    names.push(String::from_str("query"));
    names.push(String::from_str("prompt"));
    names.push(String::from_str("input"));
    names.push(String::from_str("text"));
    names.push(String::from_str("task"));
    names.push(String::from_str("keyword"));
    let ghost cand = crate::task_store::strings_view(names@);
    assert(cand =~= prompt_field_names());
    let mut fields: Vec<String> = Vec::new();
    match properties {
        Some(props) => {
            let ghost p = crate::task_store::strings_view(props@);
            let mut i: usize = 0;
            assert(cand.take(0) =~= Seq::<Seq<char>>::empty());
            while i < names.len()
                invariant
                    i <= names@.len(),
                    cand == crate::task_store::strings_view(names@),
                    p == crate::task_store::strings_view(props@),
                    crate::task_store::strings_view(fields@) == present_names(cand.take(i as int), p),
                decreases names@.len() - i,
            {
                proof {
                    assert(cand.take(i + 1).drop_last() =~= cand.take(i as int));
                    assert(cand.take(i + 1).last() == names@[i as int]@);
                }
                if has_name(props, names[i].as_str()) {
                    let x = names[i].clone();
                    let ghost prev = fields@;
                    fields.push(x);
                    proof {
                        prev.lemma_push_map_commute(|s: String| s@, x);
                    }
                }
                i = i + 1;
            }
            assert(cand.take(cand.len() as int) =~= cand);
        },
        None => {
            assert(crate::task_store::strings_view(fields@) =~= Seq::<Seq<char>>::empty());
        },
    }
    if fields.len() == 0 {
        fields.push(String::from_str("query"));
        assert(crate::task_store::strings_view(fields@) =~= seq!["query"@]);
    }
    McpInput { fields, prompt: prompt.to_string() }
}

} // verus!
