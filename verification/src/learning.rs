//! Picking durable facts out of a finished task: long-term preferences and
//! workflow rules stated by the user, and project decisions stated by the
//! model.  Writing them into the project wiki happens outside this module.

use vstd::prelude::*;
use crate::text::{trim, trim_chars, contains, contains_str, to_chars, from_chars, split_on, split_chars, views, starts_with};

verus! {

/// What kind of fact was learned.
#[derive(Debug, Clone, Copy, PartialEq, Eq, Structural)]
pub enum LearnedKind {
    Preference,
    Workflow,
    Decision,
}

#[derive(Debug)]
pub struct LearnedFact {
    pub kind: LearnedKind,
    pub content: String,
    pub context: String,
}

pub ghost struct FactView {
    pub kind: LearnedKind,
    pub content: Seq<char>,
    pub context: Seq<char>,
}

impl View for LearnedFact {
    type V = FactView;

    open spec fn view(&self) -> FactView {
        FactView { kind: self.kind, content: self.content@, context: self.context@ }
    }
}

/// The views of a list of facts.
pub open spec fn facts_view(v: Seq<LearnedFact>) -> Seq<FactView> {
    v.map_values(|f: LearnedFact| f@)
}

// ---------------------------------------------------------------------
// Marker lists
// ---------------------------------------------------------------------

/// Some marker occurs in the line.
pub open spec fn any_marker(line: Seq<char>, markers: Seq<Seq<char>>) -> bool {
    exists|i: int| 0 <= i < markers.len() && #[trigger] contains(line, markers[i])
}

/// How many of the markers occur in the line.
pub open spec fn marker_count(line: Seq<char>, markers: Seq<Seq<char>>) -> nat
    decreases markers.len(),
{
    if markers.len() == 0 {
        0
    } else {
        marker_count(line, markers.drop_last()) + if contains(line, markers.last()) { 1nat } else { 0nat }
    }
}

/// The views of a list of string slices.
pub open spec fn strs_view(v: Seq<&'static str>) -> Seq<Seq<char>> {
    v.map_values(|s: &'static str| s@)
}

fn any_marker_in(line: &[char], markers: &Vec<&'static str>) -> (r: bool)
    ensures
        r == any_marker(line@, strs_view(markers@)),
{
    let ghost ms = strs_view(markers@);
    let mut i: usize = 0;
    while i < markers.len()
        invariant
            i <= markers@.len(),
            ms == strs_view(markers@),
            forall|j: int| 0 <= j < i ==> !contains(line@, #[trigger] ms[j]),
        decreases markers@.len() - i,
    {
        assert(ms[i as int] == markers@[i as int]@);
        if contains_str(line, markers[i]) {
            return true;
        }
        i = i + 1;
    }
    false
}

fn count_markers_in(line: &[char], markers: &Vec<&'static str>) -> (r: usize)
    ensures
        r == marker_count(line@, strs_view(markers@)),
{
    let ghost ms = strs_view(markers@);
    let mut i: usize = 0;
    let mut n: usize = 0;
    assert(ms.take(0) =~= Seq::<Seq<char>>::empty());
    while i < markers.len()
        invariant
            i <= markers@.len(),
            ms == strs_view(markers@),
            n == marker_count(line@, ms.take(i as int)),
            n <= i,
        decreases markers@.len() - i,
    {
        assert(ms.take(i + 1).drop_last() =~= ms.take(i as int));
        assert(ms[i as int] == markers@[i as int]@);
        if contains_str(line, markers[i]) {
            n = n + 1;
        }
        i = i + 1;
    }
    assert(ms.take(ms.len() as int) =~= ms);
    n
}

pub open spec fn preference_markers() -> Seq<Seq<char>> {
    seq!["以后"@, "每次"@, "默认"@, "统一"@, "优先"@, "请用"@, "请保持"@]
}

pub open spec fn workflow_markers() -> Seq<Seq<char>> {
    seq!["流程"@, "步骤"@, "先"@, "再"@, "然后"@, "完成后"@, "提交前"@]
}

pub open spec fn decision_markers() -> Seq<Seq<char>> {
    seq!["以"@, "为准"@, "采用"@, "使用"@, "落到"@, "保留"@, "切到"@]
}

pub open spec fn durable_markers() -> Seq<Seq<char>> {
    seq!["以后"@, "每次"@, "默认"@, "统一"@, "优先"@, "请用"@, "请保持"@, "流程"@, "步骤"@, "提交前"@, "完成后"@]
}

pub open spec fn request_markers() -> Seq<Seq<char>> {
    seq!["帮我"@, "请帮我"@, "请你"@, "麻烦"@, "看一下"@, "看一眼"@, "处理一下"@, "解决一下"@]
}

pub open spec fn task_markers() -> Seq<Seq<char>> {
    seq![
        "修复"@, "实现"@, "增加"@, "添加"@, "删除"@, "修改"@, "重构"@, "解释"@, "分析"@, "看看"@, "排查"@,
        "运行"@, "测试"@, "提交"@, "commit"@,
    ]
}

pub open spec fn transient_markers() -> Seq<Seq<char>> {
    seq!["这次"@, "这一轮"@, "当前任务"@, "本次"@, "现在先"@, "先把"@, "先做"@]
}

fn markers_of(list: &[&'static str]) -> (r: Vec<&'static str>)
    ensures
        strs_view(r@) == strs_view(list@),
{
    let mut r: Vec<&'static str> = Vec::new();
    let mut i: usize = 0;
    while i < list.len()
        invariant
            i <= list@.len(),
            strs_view(r@) == strs_view(list@.take(i as int)),
        decreases list@.len() - i,
    {
        let ghost prev = r@;
        r.push(list[i]);
        proof {
            prev.lemma_push_map_commute(|s: &'static str| s@, list@[i as int]);
            list@.lemma_map_take_succ(|s: &'static str| s@, i as int);
        }
        i = i + 1;
    }
    assert(list@.take(list@.len() as int) =~= list@);
    r
}

fn preference_markers_vec() -> (r: Vec<&'static str>)
    ensures
        strs_view(r@) == preference_markers(),
{
    let a = ["以后", "每次", "默认", "统一", "优先", "请用", "请保持"];
    let r = markers_of(&a);
    assert(strs_view(a@) =~= preference_markers());
    r
}

fn workflow_markers_vec() -> (r: Vec<&'static str>)
    ensures
        strs_view(r@) == workflow_markers(),
{
    let a = ["流程", "步骤", "先", "再", "然后", "完成后", "提交前"];
    let r = markers_of(&a);
    assert(strs_view(a@) =~= workflow_markers());
    r
}

fn decision_markers_vec() -> (r: Vec<&'static str>)
    ensures
        strs_view(r@) == decision_markers(),
{
    let a = ["以", "为准", "采用", "使用", "落到", "保留", "切到"];
    let r = markers_of(&a);
    assert(strs_view(a@) =~= decision_markers());
    r
}

fn durable_markers_vec() -> (r: Vec<&'static str>)
    ensures
        strs_view(r@) == durable_markers(),
{
    let a = ["以后", "每次", "默认", "统一", "优先", "请用", "请保持", "流程", "步骤", "提交前", "完成后"];
    let r = markers_of(&a);
    assert(strs_view(a@) =~= durable_markers());
    r
}

fn request_markers_vec() -> (r: Vec<&'static str>)
    ensures
        strs_view(r@) == request_markers(),
{
    let a = ["帮我", "请帮我", "请你", "麻烦", "看一下", "看一眼", "处理一下", "解决一下"];
    let r = markers_of(&a);
    assert(strs_view(a@) =~= request_markers());
    r
}

fn task_markers_vec() -> (r: Vec<&'static str>)
    ensures
        strs_view(r@) == task_markers(),
{
    let a = [
        "修复", "实现", "增加", "添加", "删除", "修改", "重构", "解释", "分析", "看看", "排查", "运行",
        "测试", "提交", "commit",
    ];
    let r = markers_of(&a);
    assert(strs_view(a@) =~= task_markers());
    r
}

fn transient_markers_vec() -> (r: Vec<&'static str>)
    ensures
        strs_view(r@) == transient_markers(),
{
    let a = ["这次", "这一轮", "当前任务", "本次", "现在先", "先把", "先做"];
    let r = markers_of(&a);
    assert(strs_view(a@) =~= transient_markers());
    r
}

// ---------------------------------------------------------------------
// Classifying one line
// ---------------------------------------------------------------------

/// `s.trim_start_matches('-')`.
pub open spec fn strip_leading_dashes(s: Seq<char>) -> Seq<char>
    decreases s.len(),
{
    if s.len() > 0 && s[0] == '-' {
        strip_leading_dashes(s.drop_first())
    } else {
        s
    }
}

/// A line as a fact records it: trimmed, leading dashes (list bullets)
/// removed, trimmed again.
pub open spec fn normalize_line(line: Seq<char>) -> Seq<char> {
    trim(strip_leading_dashes(trim(line)))
}

/// User lines that are commands or one-off requests teach nothing durable.
pub open spec fn should_skip_user_learning_line(line: Seq<char>) -> bool {
    let t = trim(line);
    if t.len() == 0 || t[0] == '/' {
        true
    } else if any_marker(t, durable_markers()) {
        false
    } else if any_marker(t, request_markers()) {
        true
    } else if any_marker(t, task_markers()) && !contains(t, "提交前"@) {
        true
    } else {
        any_marker(t, transient_markers())
    }
}

/// Model lines that are commands or about this round only are not decisions.
pub open spec fn should_skip_provider_decision_line(line: Seq<char>) -> bool {
    let t = trim(line);
    t.len() == 0 || t[0] == '/' || contains(t, "这次"@) || contains(t, "这一轮"@) || contains(t, "本次"@)
}

/// A stated long-term preference.
pub open spec fn extract_preference(line: Seq<char>) -> Option<Seq<char>> {
    if should_skip_user_learning_line(line) {
        None
    } else if any_marker(line, preference_markers()) && !contains(line, "/memory"@) {
        Some(normalize_line(line))
    } else {
        None
    }
}

/// A stated workflow rule: at least two workflow markers.
pub open spec fn extract_workflow(line: Seq<char>) -> Option<Seq<char>> {
    if should_skip_user_learning_line(line) {
        None
    } else if marker_count(line, workflow_markers()) >= 2 {
        Some(normalize_line(line))
    } else {
        None
    }
}

/// A stated project decision.
pub open spec fn extract_decision(line: Seq<char>) -> Option<Seq<char>> {
    if contains(line, "为准"@) || contains(line, "采用"@) || contains(line, "落到"@) {
        Some(normalize_line(line))
    } else if marker_count(line, decision_markers()) >= 2 && contains(line, "项目"@) {
        Some(normalize_line(line))
    } else {
        None
    }
}

fn has_leading_slash(t: &[char]) -> (r: bool)
    ensures
        r == (t@.len() > 0 && t@[0] == '/'),
{
    t.len() > 0 && t[0] == '/'
}

/// Executable `normalize_line`.
pub fn normalize_line_chars(line: &[char]) -> (r: Vec<char>)
    ensures
        r@ == normalize_line(line@),
{
    let t = trim_chars(line);
    let mut i: usize = 0;
    assert(t@.skip(0) =~= t@);
    while i < t.len() && t[i] == '-'
        invariant
            i <= t@.len(),
            strip_leading_dashes(t@) == strip_leading_dashes(t@.skip(i as int)),
        decreases t@.len() - i,
    {
        assert(t@.skip(i as int).drop_first() =~= t@.skip(i + 1));
        i = i + 1;
    }
    let rest = crate::text::slice_chars(&t, i, t.len());
    assert(rest@ =~= t@.skip(i as int));
    trim_chars(&rest)
}

/// Executable `should_skip_user_learning_line`.
pub fn should_skip_user_learning_line_chars(line: &[char]) -> (r: bool)
    ensures
        r == should_skip_user_learning_line(line@),
{
    let t = trim_chars(line);
    if t.len() == 0 || has_leading_slash(&t) {
        return true;
    }
    if any_marker_in(&t, &durable_markers_vec()) {
        return false;
    }
    if any_marker_in(&t, &request_markers_vec()) {
        return true;
    }
    if any_marker_in(&t, &task_markers_vec()) && !contains_str(&t, "提交前") {
        return true;
    }
    any_marker_in(&t, &transient_markers_vec())
}

/// Executable `should_skip_provider_decision_line`.
pub fn should_skip_provider_decision_line_chars(line: &[char]) -> (r: bool)
    ensures
        r == should_skip_provider_decision_line(line@),
{
    let t = trim_chars(line);
    t.len() == 0 || has_leading_slash(&t) || contains_str(&t, "这次") || contains_str(&t, "这一轮")
        || contains_str(&t, "本次")
}

/// Executable `extract_preference`.
pub fn extract_preference_chars(line: &[char]) -> (r: Option<Vec<char>>)
    ensures
        match r {
            Some(v) => extract_preference(line@) == Some(v@),
            None => extract_preference(line@) is None,
        },
{
    if should_skip_user_learning_line_chars(line) {
        return None;
    }
    if any_marker_in(line, &preference_markers_vec()) && !contains_str(line, "/memory") {
        return Some(normalize_line_chars(line));
    }
    None
}

/// Executable `extract_workflow`.
pub fn extract_workflow_chars(line: &[char]) -> (r: Option<Vec<char>>)
    ensures
        match r {
            Some(v) => extract_workflow(line@) == Some(v@),
            None => extract_workflow(line@) is None,
        },
{
    if should_skip_user_learning_line_chars(line) {
        return None;
    }
    if count_markers_in(line, &workflow_markers_vec()) >= 2 {
        return Some(normalize_line_chars(line));
    }
    None
}

/// Executable `extract_decision`.
pub fn extract_decision_chars(line: &[char]) -> (r: Option<Vec<char>>)
    ensures
        match r {
            Some(v) => extract_decision(line@) == Some(v@),
            None => extract_decision(line@) is None,
        },
{
    if contains_str(line, "为准") || contains_str(line, "采用") || contains_str(line, "落到") {
        return Some(normalize_line_chars(line));
    }
    if count_markers_in(line, &decision_markers_vec()) >= 2 && contains_str(line, "项目") {
        return Some(normalize_line_chars(line));
    }
    None
}

// ---------------------------------------------------------------------
// Whole inputs
// ---------------------------------------------------------------------

/// The non-empty lines of a text, each trimmed (`lines().map(trim).filter(non-empty)`).
pub open spec fn clean_lines(parts: Seq<Seq<char>>) -> Seq<Seq<char>>
    decreases parts.len(),
{
    if parts.len() == 0 {
        Seq::empty()
    } else if trim(parts.last()).len() == 0 {
        clean_lines(parts.drop_last())
    } else {
        clean_lines(parts.drop_last()).push(trim(parts.last()))
    }
}

/// The trimmed non-empty lines of a text.
pub open spec fn text_lines(s: Seq<char>) -> Seq<Seq<char>> {
    clean_lines(split_on(s, '\n'))
}

pub open spec fn preference_context() -> Seq<char> {
    "用户输入中出现明确长期偏好表达"@
}

pub open spec fn workflow_context() -> Seq<char> {
    "用户输入中出现明确流程约束表达"@
}

pub open spec fn decision_context() -> Seq<char> {
    "模型输出中出现明确项目决策表达"@
}

/// A fact of a kind, when there is content.
pub open spec fn fact_if(kind: LearnedKind, content: Option<Seq<char>>, context: Seq<char>) -> Seq<FactView> {
    match content {
        Some(c) => seq![FactView { kind, content: c, context }],
        None => Seq::empty(),
    }
}

/// The preferences and workflow rules in the user's lines, in line order.
pub open spec fn user_facts(lines: Seq<Seq<char>>) -> Seq<FactView>
    decreases lines.len(),
{
    if lines.len() == 0 {
        Seq::empty()
    } else {
        user_facts(lines.drop_last()) + fact_if(
            LearnedKind::Preference,
            extract_preference(lines.last()),
            preference_context(),
        ) + fact_if(LearnedKind::Workflow, extract_workflow(lines.last()), workflow_context())
    }
}

/// The decisions in the model's lines, in line order.
pub open spec fn decision_facts(lines: Seq<Seq<char>>) -> Seq<FactView>
    decreases lines.len(),
{
    if lines.len() == 0 {
        Seq::empty()
    } else if should_skip_provider_decision_line(lines.last()) {
        decision_facts(lines.drop_last())
    } else {
        decision_facts(lines.drop_last()) + fact_if(
            LearnedKind::Decision,
            extract_decision(lines.last()),
            decision_context(),
        )
    }
}

/// `char::to_ascii_lowercase` agreement of two characters.
pub open spec fn ascii_fold_eq(x: char, y: char) -> bool {
    x == y || ('A' <= x <= 'Z' && (x as u32) + 32 == (y as u32)) || ('A' <= y <= 'Z' && (y as u32) + 32
        == (x as u32))
}

/// `str::eq_ignore_ascii_case`.
pub open spec fn eq_ignore_ascii_case(a: Seq<char>, b: Seq<char>) -> bool {
    a.len() == b.len() && forall|i: int| 0 <= i < a.len() ==> #[trigger] ascii_fold_eq(a[i], b[i])
}

/// The facts with later repeats (same kind, content equal ignoring ASCII
/// case) left out.
pub open spec fn dedup_facts(s: Seq<FactView>) -> Seq<FactView>
    decreases s.len(),
{
    if s.len() == 0 {
        s
    } else {
        let d = dedup_facts(s.drop_last());
        if exists|i: int| 0 <= i < d.len() && d[i].kind == s.last().kind && eq_ignore_ascii_case(d[i].content, s.last().content) {
            d
        } else {
            d.push(s.last())
        }
    }
}

/// What `extract_learnings` finds in a prompt and a response.
pub open spec fn learnings(user_prompt: Seq<char>, provider_response: Seq<char>) -> Seq<FactView> {
    dedup_facts(user_facts(text_lines(user_prompt)) + decision_facts(text_lines(provider_response)))
}

fn char_fold_eq(x: char, y: char) -> (r: bool)
    ensures
        r == ascii_fold_eq(x, y),
{
    x == y || ('A' <= x && x <= 'Z' && (x as u32) + 32 == (y as u32)) || ('A' <= y && y <= 'Z'
        && (y as u32) + 32 == (x as u32))
}

/// Executable `eq_ignore_ascii_case`.
pub fn eq_ignore_ascii_case_str(a: &str, b: &str) -> (r: bool)
    ensures
        r == eq_ignore_ascii_case(a@, b@),
{
    let x = to_chars(a);
    let y = to_chars(b);
    if x.len() != y.len() {
        return false;
    }
    let mut i: usize = 0;
    while i < x.len()
        invariant
            x@.len() == y@.len(),
            x@ == a@,
            y@ == b@,
            i <= x@.len(),
            forall|k: int| 0 <= k < i ==> #[trigger] ascii_fold_eq(x@[k], y@[k]),
        decreases x@.len() - i,
    {
        if !char_fold_eq(x[i], y[i]) {
            return false;
        }
        i = i + 1;
    }
    true
}

/// The trimmed non-empty lines of a text.
fn lines_of(s: &str) -> (r: Vec<Vec<char>>)
    ensures
        views(r@) == text_lines(s@),
{
    let chars = to_chars(s);
    let parts = split_chars(&chars, '\n');
    let ghost ps = views(parts@);
    let mut out: Vec<Vec<char>> = Vec::new();
    let mut i: usize = 0;
    assert(ps.take(0) =~= Seq::<Seq<char>>::empty());
    assert(views(out@) =~= Seq::<Seq<char>>::empty());
    while i < parts.len()
        invariant
            i <= parts@.len(),
            ps == views(parts@),
            ps == split_on(s@, '\n'),
            views(out@) == clean_lines(ps.take(i as int)),
        decreases parts@.len() - i,
    {
        assert(ps.take(i + 1).drop_last() =~= ps.take(i as int));
        assert(ps[i as int] == parts@[i as int]@);
        let t = trim_chars(&parts[i]);
        if t.len() > 0 {
            let ghost prev = out@;
            out.push(t);
            proof {
                prev.lemma_push_map_commute(|x: Vec<char>| x@, t);
            }
        }
        i = i + 1;
    }
    assert(ps.take(ps.len() as int) =~= ps);
    out
}

fn make_fact(kind: LearnedKind, content: &Vec<char>, context: &str) -> (r: LearnedFact)
    ensures
        r@ == (FactView { kind, content: content@, context: context@ }),
{
    LearnedFact { kind, content: from_chars(content), context: String::from_str(context) }
}

fn push_fact(out: &mut Vec<LearnedFact>, f: LearnedFact)
    ensures
        facts_view(final(out)@) == facts_view(old(out)@).push(f@),
{
    let ghost prev = out@;
    out.push(f);
    proof {
        prev.lemma_push_map_commute(|x: LearnedFact| x@, f);
    }
}

impl LearnedFact {
    pub fn copy(&self) -> (r: Self)
        ensures
            r@ == self@,
    {
        LearnedFact { kind: self.kind, content: self.content.clone(), context: self.context.clone() }
    }
}

/// Executable `dedup_facts`.
fn dedup(facts: &Vec<LearnedFact>) -> (r: Vec<LearnedFact>)
    ensures
        facts_view(r@) == dedup_facts(facts_view(facts@)),
{
    let ghost all = facts_view(facts@);
    let mut out: Vec<LearnedFact> = Vec::new();
    let mut i: usize = 0;
    assert(all.take(0) =~= Seq::<FactView>::empty());
    assert(facts_view(out@) =~= Seq::<FactView>::empty());
    while i < facts.len()
        invariant
            i <= facts@.len(),
            all == facts_view(facts@),
            facts_view(out@) == dedup_facts(all.take(i as int)),
        decreases facts@.len() - i,
    {
        assert(all.take(i + 1).drop_last() =~= all.take(i as int));
        assert(all.take(i + 1).last() == facts@[i as int]@);
        let f = &facts[i];
        let ghost d = facts_view(out@);
        let mut seen = false;
        let mut j: usize = 0;
        while j < out.len()
            invariant
                j <= out@.len(),
                d == facts_view(out@),
                seen == exists|k: int| 0 <= k < j && d[k].kind == f@.kind && eq_ignore_ascii_case(d[k].content, f@.content),
            decreases out@.len() - j,
        {
            assert(d[j as int] == out@[j as int]@);
            if out[j].kind == f.kind && eq_ignore_ascii_case_str(out[j].content.as_str(), f.content.as_str()) {
                seen = true;
            }
            j = j + 1;
        }
        if !seen {
            push_fact(&mut out, f.copy());
        }
        i = i + 1;
    }
    assert(all.take(all.len() as int) =~= all);
    out
}

/// The durable facts in a finished task: preferences and workflow rules from
/// the user's lines, then decisions from the model's lines, without repeats.
pub fn extract_learnings(user_prompt: &str, provider_response: &str) -> (r: Vec<LearnedFact>)
    ensures
        facts_view(r@) == learnings(user_prompt@, provider_response@),
{
    let mut facts: Vec<LearnedFact> = Vec::new();
    let user = lines_of(user_prompt);
    let ghost ul = views(user@);
    let mut i: usize = 0;
    assert(ul.take(0) =~= Seq::<Seq<char>>::empty());
    assert(facts_view(facts@) =~= Seq::<FactView>::empty());
    while i < user.len()
        invariant
            i <= user@.len(),
            ul == views(user@),
            facts_view(facts@) == user_facts(ul.take(i as int)),
        decreases user@.len() - i,
    {
        assert(ul.take(i + 1).drop_last() =~= ul.take(i as int));
        assert(ul.take(i + 1).last() == user@[i as int]@);
        let ghost before = facts_view(facts@);
        match extract_preference_chars(&user[i]) {
            Some(c) => {
                push_fact(&mut facts, make_fact(LearnedKind::Preference, &c, "用户输入中出现明确长期偏好表达"));
            },
            None => {},
        }
        let ghost mid = facts_view(facts@);
        match extract_workflow_chars(&user[i]) {
            Some(c) => {
                push_fact(&mut facts, make_fact(LearnedKind::Workflow, &c, "用户输入中出现明确流程约束表达"));
            },
            None => {},
        }
        proof {
            let l = user@[i as int]@;
            assert(mid =~= before + fact_if(LearnedKind::Preference, extract_preference(l), preference_context()));
            assert(facts_view(facts@) =~= mid + fact_if(LearnedKind::Workflow, extract_workflow(l), workflow_context()));
        }
        i = i + 1;
    }
    assert(ul.take(ul.len() as int) =~= ul);
    let ghost from_user = facts_view(facts@);
    let resp = lines_of(provider_response);
    let ghost rl = views(resp@);
    let mut j: usize = 0;
    assert(rl.take(0) =~= Seq::<Seq<char>>::empty());
    assert(from_user + decision_facts(rl.take(0)) =~= from_user);
    while j < resp.len()
        invariant
            j <= resp@.len(),
            rl == views(resp@),
            facts_view(facts@) == from_user + decision_facts(rl.take(j as int)),
        decreases resp@.len() - j,
    {
        assert(rl.take(j + 1).drop_last() =~= rl.take(j as int));
        assert(rl.take(j + 1).last() == resp@[j as int]@);
        let ghost before = facts_view(facts@);
        if !should_skip_provider_decision_line_chars(&resp[j]) {
            match extract_decision_chars(&resp[j]) {
                Some(c) => {
                    push_fact(&mut facts, make_fact(LearnedKind::Decision, &c, "模型输出中出现明确项目决策表达"));
                },
                None => {},
            }
            proof {
                let l = resp@[j as int]@;
                assert(facts_view(facts@) =~= from_user + (decision_facts(rl.take(j as int)) + fact_if(
                    LearnedKind::Decision,
                    extract_decision(l),
                    decision_context(),
                )));
            }
        }
        j = j + 1;
    }
    assert(rl.take(rl.len() as int) =~= rl);
    dedup(&facts)
}

// ---------------------------------------------------------------------
// Laws
// ---------------------------------------------------------------------

proof fn lemma_no_lines_in_empty_text()
    ensures
        text_lines(Seq::<char>::empty()) == Seq::<Seq<char>>::empty(),
{
    let e = Seq::<char>::empty();
    assert(split_on(e, '\n') == seq![e]);
    assert(crate::text::trim_start(e) == e);
    assert(crate::text::trim_end(e) == e);
    assert(trim(e).len() == 0);
    let parts = seq![e];
    assert(parts.last() == e);
    assert(parts.drop_last() =~= Seq::<Seq<char>>::empty());
    assert(clean_lines(parts.drop_last()) == Seq::<Seq<char>>::empty());
    assert(clean_lines(parts) == clean_lines(parts.drop_last()));
}

proof fn lemma_user_facts_not_decisions(lines: Seq<Seq<char>>)
    ensures
        forall|i: int| 0 <= i < user_facts(lines).len() ==> #[trigger] user_facts(lines)[i].kind != LearnedKind::Decision,
    decreases lines.len(),
{
    if lines.len() > 0 {
        lemma_user_facts_not_decisions(lines.drop_last());
    }
}

proof fn lemma_decision_facts_are_decisions(lines: Seq<Seq<char>>)
    ensures
        forall|i: int| 0 <= i < decision_facts(lines).len() ==> #[trigger] decision_facts(lines)[i].kind == LearnedKind::Decision,
    decreases lines.len(),
{
    if lines.len() > 0 {
        lemma_decision_facts_are_decisions(lines.drop_last());
    }
}

/// Every fact that `dedup_facts` keeps comes from its input.
proof fn lemma_dedup_keeps_members(s: Seq<FactView>)
    ensures
        forall|i: int| 0 <= i < dedup_facts(s).len() ==> s.contains(#[trigger] dedup_facts(s)[i]),
    decreases s.len(),
{
    if s.len() > 0 {
        lemma_dedup_keeps_members(s.drop_last());
        let d = dedup_facts(s.drop_last());
        assert forall|i: int| 0 <= i < dedup_facts(s).len() implies s.contains(#[trigger] dedup_facts(s)[i]) by {
            if i < d.len() {
                let j = choose|j: int| 0 <= j < s.drop_last().len() && s.drop_last()[j] == d[i];
                assert(s[j] == d[i]);
            } else {
                assert(s[s.len() - 1] == dedup_facts(s)[i]);
            }
        }
    }
}

/// No two facts that `dedup_facts` keeps share a kind and content up to
/// ASCII case (the later against the earlier).
proof fn lemma_dedup_distinct(s: Seq<FactView>)
    ensures
        forall|i: int, j: int|
            0 <= i < j < dedup_facts(s).len() ==> !(#[trigger] dedup_facts(s)[i].kind == #[trigger] dedup_facts(s)[j].kind
                && eq_ignore_ascii_case(dedup_facts(s)[i].content, dedup_facts(s)[j].content)),
    decreases s.len(),
{
    if s.len() > 0 {
        lemma_dedup_distinct(s.drop_last());
    }
}

/// With no kind in common between `u` and `v`, deduplicating `u + v` is
/// deduplicating each part.
proof fn lemma_dedup_split(u: Seq<FactView>, v: Seq<FactView>)
    requires
        forall|i: int, j: int| 0 <= i < u.len() && 0 <= j < v.len() ==> #[trigger] u[i].kind != #[trigger] v[j].kind,
    ensures
        dedup_facts(u + v) == dedup_facts(u) + dedup_facts(v),
    decreases v.len(),
{
    if v.len() == 0 {
        assert(u + v =~= u);
        assert(dedup_facts(u) + dedup_facts(v) =~= dedup_facts(u));
    } else {
        let w = v.drop_last();
        lemma_dedup_split(u, w);
        assert((u + v).drop_last() =~= u + w);
        assert((u + v).last() == v.last());
        let du = dedup_facts(u);
        let dw = dedup_facts(w);
        let x = v.last();
        lemma_dedup_keeps_members(u);
        let hit_all = exists|i: int| 0 <= i < (du + dw).len() && (du + dw)[i].kind == x.kind && eq_ignore_ascii_case((du + dw)[i].content, x.content);
        let hit_w = exists|i: int| 0 <= i < dw.len() && dw[i].kind == x.kind && eq_ignore_ascii_case(dw[i].content, x.content);
        if hit_all {
            let i = choose|i: int| 0 <= i < (du + dw).len() && (du + dw)[i].kind == x.kind && eq_ignore_ascii_case((du + dw)[i].content, x.content);
            if i < du.len() {
                assert(u.contains(du[i]));
                let k = choose|k: int| 0 <= k < u.len() && u[k] == du[i];
                assert(u[k].kind != v[v.len() - 1].kind);
                assert(false);
            }
            assert((du + dw)[i] == dw[i - du.len()]);
            assert(hit_w);
        }
        if hit_w {
            let i = choose|i: int| 0 <= i < dw.len() && dw[i].kind == x.kind && eq_ignore_ascii_case(dw[i].content, x.content);
            assert((du + dw)[du.len() + i] == dw[i]);
            assert(hit_all);
        }
        if !hit_w {
            assert((du + dw).push(x) =~= du + dw.push(x));
        }
    }
}

/// A prompt and a response are read apart: what is learned from both is
/// what is learned from the prompt alone (preferences and workflow rules
/// only) followed by what is learned from the response alone (decisions
/// only), and no two learned facts share a kind and a content that differs
/// at most in ASCII case.
pub proof fn law_prompt_and_response_learn_apart(user_prompt: Seq<char>, provider_response: Seq<char>)
    ensures
        learnings(user_prompt, provider_response) == learnings(user_prompt, Seq::empty()) + learnings(
            Seq::empty(),
            provider_response,
        ),
        forall|i: int|
            0 <= i < learnings(user_prompt, Seq::empty()).len() ==> #[trigger] learnings(user_prompt, Seq::empty())[i].kind
                != LearnedKind::Decision,
        forall|i: int|
            0 <= i < learnings(Seq::empty(), provider_response).len() ==> #[trigger] learnings(Seq::empty(), provider_response)[i].kind
                == LearnedKind::Decision,
        forall|i: int, j: int|
            0 <= i < j < learnings(user_prompt, provider_response).len() ==> !(
            #[trigger] learnings(user_prompt, provider_response)[i].kind == #[trigger] learnings(user_prompt, provider_response)[j].kind
                && eq_ignore_ascii_case(
                learnings(user_prompt, provider_response)[i].content,
                learnings(user_prompt, provider_response)[j].content,
            )),
{
    lemma_no_lines_in_empty_text();
    let u = user_facts(text_lines(user_prompt));
    let d = decision_facts(text_lines(provider_response));
    let e = Seq::<Seq<char>>::empty();
    assert(user_facts(e) =~= Seq::<FactView>::empty());
    assert(decision_facts(e) =~= Seq::<FactView>::empty());
    assert(u + decision_facts(text_lines(Seq::empty())) =~= u);
    assert(user_facts(text_lines(Seq::empty())) + d =~= d);
    lemma_user_facts_not_decisions(text_lines(user_prompt));
    lemma_decision_facts_are_decisions(text_lines(provider_response));
    assert forall|i: int, j: int| 0 <= i < u.len() && 0 <= j < d.len() implies #[trigger] u[i].kind != #[trigger] d[j].kind by {
        assert(u[i].kind != LearnedKind::Decision);
        assert(d[j].kind == LearnedKind::Decision);
    }
    lemma_dedup_split(u, d);
    lemma_dedup_keeps_members(u);
    lemma_dedup_keeps_members(d);
    assert forall|i: int| 0 <= i < dedup_facts(u).len() implies #[trigger] dedup_facts(u)[i].kind != LearnedKind::Decision by {
        let k = choose|k: int| 0 <= k < u.len() && u[k] == dedup_facts(u)[i];
        assert(u[k].kind != LearnedKind::Decision);
    }
    assert forall|i: int| 0 <= i < dedup_facts(d).len() implies #[trigger] dedup_facts(d)[i].kind == LearnedKind::Decision by {
        let k = choose|k: int| 0 <= k < d.len() && d[k] == dedup_facts(d)[i];
        assert(d[k].kind == LearnedKind::Decision);
    }
    lemma_dedup_distinct(u + d);
}

/// A response line that states a decision: it says what is taken as the
/// standard (`为准`), what is adopted (`采用`) or where something lands
/// (`落到`).
pub open spec fn states_decision(line: Seq<char>) -> bool {
    contains(line, "为准"@) || contains(line, "采用"@) || contains(line, "落到"@)
}

proof fn lemma_decision_facts_hold(lines: Seq<Seq<char>>, k: int)
    requires
        0 <= k < lines.len(),
        !should_skip_provider_decision_line(lines[k]),
        states_decision(lines[k]),
    ensures
        decision_facts(lines).contains(
            FactView { kind: LearnedKind::Decision, content: normalize_line(lines[k]), context: decision_context() },
        ),
    decreases lines.len(),
{
    let f = FactView { kind: LearnedKind::Decision, content: normalize_line(lines[k]), context: decision_context() };
    let rest = decision_facts(lines.drop_last());
    if k == lines.len() - 1 {
        assert(lines.last() == lines[k]);
        assert(extract_decision(lines[k]) == Some(normalize_line(lines[k])));
        let extra = fact_if(LearnedKind::Decision, extract_decision(lines.last()), decision_context());
        assert(extra == seq![f]);
        assert(decision_facts(lines) == rest + extra);
        assert((rest + extra)[rest.len() as int] == f);
    } else {
        assert(lines.drop_last()[k] == lines[k]);
        lemma_decision_facts_hold(lines.drop_last(), k);
        let x = choose|x: int| 0 <= x < rest.len() && rest[x] == f;
        if !should_skip_provider_decision_line(lines.last()) {
            let extra = fact_if(LearnedKind::Decision, extract_decision(lines.last()), decision_context());
            assert(decision_facts(lines) == rest + extra);
            assert((rest + extra)[x] == f);
        }
    }
}

/// Every fact the dedup drops has a kept fact of its kind with the same
/// content up to ASCII case.
proof fn lemma_dedup_covers(s: Seq<FactView>, k: int)
    requires
        0 <= k < s.len(),
    ensures
        exists|i: int|
            0 <= i < dedup_facts(s).len() && #[trigger] dedup_facts(s)[i].kind == s[k].kind && eq_ignore_ascii_case(
                dedup_facts(s)[i].content,
                s[k].content,
            ),
    decreases s.len(),
{
    let d = dedup_facts(s.drop_last());
    if k == s.len() - 1 {
        let x = s.last();
        if exists|i: int| 0 <= i < d.len() && d[i].kind == x.kind && eq_ignore_ascii_case(d[i].content, x.content) {
            let i = choose|i: int| 0 <= i < d.len() && d[i].kind == x.kind && eq_ignore_ascii_case(d[i].content, x.content);
            assert(dedup_facts(s)[i] == d[i]);
        } else {
            assert(dedup_facts(s) == d.push(x));
            assert(dedup_facts(s)[d.len() as int] == x);
            assert(eq_ignore_ascii_case(x.content, x.content));
        }
    } else {
        assert(s.drop_last()[k] == s[k]);
        lemma_dedup_covers(s.drop_last(), k);
        let i = choose|i: int|
            0 <= i < d.len() && #[trigger] d[i].kind == s[k].kind && eq_ignore_ascii_case(d[i].content, s[k].content);
        assert(dedup_facts(s)[i] == d[i]);
    }
}

/// A response line that states a decision (and is not a command or about
/// this round only) is learned: the facts learned from the response hold a
/// decision with that line's content as a fact records it, up to ASCII
/// case (a repeat of an earlier decision is kept once).
pub proof fn law_stated_decisions_are_learned(provider_response: Seq<char>, k: int)
    requires
        0 <= k < text_lines(provider_response).len(),
        !should_skip_provider_decision_line(text_lines(provider_response)[k]),
        states_decision(text_lines(provider_response)[k]),
    ensures
        exists|i: int|
            0 <= i < learnings(Seq::empty(), provider_response).len() && {
                let f = #[trigger] learnings(Seq::empty(), provider_response)[i];
                &&& f.kind == LearnedKind::Decision
                &&& f.context == decision_context()
                &&& eq_ignore_ascii_case(f.content, normalize_line(text_lines(provider_response)[k]))
            },
{
    let lines = text_lines(provider_response);
    let d = decision_facts(lines);
    lemma_no_lines_in_empty_text();
    assert(user_facts(Seq::<Seq<char>>::empty()) =~= Seq::<FactView>::empty());
    assert(user_facts(text_lines(Seq::empty())) + d =~= d);
    lemma_decision_facts_hold(lines, k);
    let f = FactView { kind: LearnedKind::Decision, content: normalize_line(lines[k]), context: decision_context() };
    let x = choose|x: int| 0 <= x < d.len() && d[x] == f;
    lemma_dedup_covers(d, x);
    lemma_decision_facts_are_decisions(lines);
    lemma_dedup_keeps_members(d);
    let i = choose|i: int|
        0 <= i < dedup_facts(d).len() && #[trigger] dedup_facts(d)[i].kind == d[x].kind && eq_ignore_ascii_case(
            dedup_facts(d)[i].content,
            d[x].content,
        );
    let y = dedup_facts(d)[i];
    assert(d.contains(y));
    let m = choose|m: int| 0 <= m < d.len() && d[m] == y;
    lemma_decision_facts_context(lines);
    assert(d[m].context == decision_context());
    assert(learnings(Seq::empty(), provider_response)[i] == y);
}

proof fn lemma_decision_facts_context(lines: Seq<Seq<char>>)
    ensures
        forall|i: int| 0 <= i < decision_facts(lines).len() ==> #[trigger] decision_facts(lines)[i].context == decision_context(),
    decreases lines.len(),
{
    if lines.len() > 0 {
        lemma_decision_facts_context(lines.drop_last());
    }
}

} // verus!
