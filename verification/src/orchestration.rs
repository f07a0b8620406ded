//! The orchestration summary of a multi-role run: which parts of the
//! report it shows, and in what words.

use vstd::prelude::*;
use crate::text::{to_chars, chars_eq, trim, trim_str, decimal, u64_to_string};
use crate::task_store::strings_view;
use crate::runner::{join, join_strings};

verus! {

/// The label shown for a conflict kind; an unknown kind is shown as it is.
pub open spec fn conflict_label(kind: Seq<char>) -> Seq<char> {
    if kind == "validation_conflict"@ {
        "验证冲突"@
    } else if kind == "status_conflict"@ {
        "状态冲突"@
    } else if kind == "route_conflict"@ {
        "路由冲突"@
    } else if kind == "conclusion_conflict"@ {
        "结论冲突"@
    } else if kind == "polarity_conflict"@ {
        "极性冲突"@
    } else {
        kind
    }
}

fn is(kind: &[char], name: &str) -> (r: bool)
    ensures
        r == (kind@ == name@),
{
    chars_eq(kind, &to_chars(name))
}

/// Executable `conflict_label`.
pub fn conflict_kind_label<'a>(kind: &'a str) -> (r: &'a str)
    ensures
        r@ == conflict_label(kind@),
{
    let k = to_chars(kind);
    if is(&k, "validation_conflict") {
        "验证冲突"
    } else if is(&k, "status_conflict") {
        "状态冲突"
    } else if is(&k, "route_conflict") {
        "路由冲突"
    } else if is(&k, "conclusion_conflict") {
        "结论冲突"
    } else if is(&k, "polarity_conflict") {
        "极性冲突"
    } else {
        kind
    }
}


// ---------------------------------------------------------------------
// The report of an orchestrated run
// ---------------------------------------------------------------------

/// One entry of the summary record.  Each field is the text the report
/// gives for it, when it gives one.
#[derive(Debug)]
pub struct SummaryItem {
    pub role_id: Option<String>,
    pub route: Option<String>,
    pub output: Option<String>,
}

/// The summary record of a run.
#[derive(Debug)]
pub struct SummaryRecord {
    pub reporter_summary: Option<String>,
    pub overall_conclusion: Option<String>,
    pub recommended_next_action: Option<String>,
    /// The listed risks; an entry that is not text is `None`.
    pub key_risks: Vec<Option<String>>,
    pub items: Vec<SummaryItem>,
}

/// A role of the orchestration plan.
#[derive(Debug)]
pub struct PlannedRole {
    pub role_id: Option<String>,
    pub preferred_model: Option<String>,
    pub needs_thinking: Option<bool>,
}

/// The primary route chosen for a role.
#[derive(Debug)]
pub struct RoutePrimary {
    pub provider_name: Option<String>,
    pub model_name: Option<String>,
    pub route_score: Option<i64>,
    pub needs_thinking: Option<bool>,
}

/// The route record of a role.
#[derive(Debug)]
pub struct RouteRecord {
    pub role_id: Option<String>,
    pub primary: Option<RoutePrimary>,
}

/// A recorded conflict.
#[derive(Debug)]
pub struct ConflictRecord {
    pub kind: Option<String>,
    pub summary: Option<String>,
}

/// What the summary reads of an orchestrated run's report.
#[derive(Debug)]
pub struct OrchestrationReport {
    pub summary_record: Option<SummaryRecord>,
    pub roles: Vec<PlannedRole>,
    pub route_records: Vec<RouteRecord>,
    /// The conflict records, when the report has a list of them.
    pub conflict_records: Option<Vec<ConflictRecord>>,
    /// The plain conflict list, read only without conflict records; an
    /// entry that is not text is `None`.
    pub conflicts: Vec<Option<String>>,
}

/// The lines kept from a list: `f` of each entry that gives one, in order.
pub open spec fn lines_of<A>(s: Seq<A>, f: spec_fn(A) -> Option<Seq<char>>) -> Seq<Seq<char>>
    decreases s.len(),
{
    if s.len() == 0 {
        Seq::empty()
    } else {
        let rest = lines_of(s.drop_last(), f);
        match f(s.last()) {
            Some(l) => rest.push(l),
            None => rest,
        }
    }
}

/// A text field trimmed, when it is not blank.
pub open spec fn trimmed_text(o: Option<String>) -> Option<Seq<char>> {
    match o {
        Some(s) => if trim(s@).len() > 0 { Some(trim(s@)) } else { None },
        None => None,
    }
}

/// A text field, `auto` when missing.
pub open spec fn or_auto(o: Option<String>) -> Seq<char> {
    match o {
        Some(s) => s@,
        None => "auto"@,
    }
}

pub open spec fn flag_text(b: bool) -> Seq<char> {
    if b { "true"@ } else { "false"@ }
}

/// `i64::to_string`.
pub open spec fn int_text(n: int) -> Seq<char> {
    if n < 0 { "-"@ + decimal((-n) as nat) } else { decimal(n as nat) }
}

pub open spec fn risk_line(r: Option<String>) -> Option<Seq<char>> {
    match r {
        Some(s) => Some("- risk: "@ + s@),
        None => None,
    }
}

pub open spec fn item_line(i: SummaryItem) -> Option<Seq<char>> {
    match (i.role_id, trimmed_text(i.output)) {
        (Some(r), Some(o)) => Some("- "@ + r@ + " ["@ + or_auto(i.route) + "]: "@ + o),
        _ => None,
    }
}

pub open spec fn role_line(r: PlannedRole) -> Option<Seq<char>> {
    match r.role_id {
        Some(id) => Some("- "@ + id@ + ": "@ + or_auto(r.preferred_model) + " thinking="@
            + flag_text(r.needs_thinking == Some(true))),
        None => None,
    }
}

pub open spec fn route_line(r: RouteRecord) -> Option<Seq<char>> {
    match (r.role_id, r.primary) {
        (Some(id), Some(p)) => Some("- "@ + id@ + ": "@ + or_auto(p.provider_name) + "/"@ + or_auto(p.model_name)
            + " score="@ + int_text(match p.route_score { Some(x) => x as int, None => 0 })
            + " thinking="@ + flag_text(p.needs_thinking == Some(true))),
        _ => None,
    }
}

pub open spec fn conflict_record_line(c: ConflictRecord) -> Option<Seq<char>> {
    match c.summary {
        Some(s) => Some("- ["@ + conflict_label(match c.kind { Some(k) => k@, None => "conflict"@ }) + "] "@ + s@),
        None => None,
    }
}

pub open spec fn conflict_line(c: Option<String>) -> Option<Seq<char>> {
    match c {
        Some(s) => Some("- "@ + s@),
        None => None,
    }
}

pub open spec fn risk_fn() -> spec_fn(Option<String>) -> Option<Seq<char>> {
    |r: Option<String>| risk_line(r)
}

pub open spec fn item_fn() -> spec_fn(SummaryItem) -> Option<Seq<char>> {
    |i: SummaryItem| item_line(i)
}

pub open spec fn role_fn() -> spec_fn(PlannedRole) -> Option<Seq<char>> {
    |r: PlannedRole| role_line(r)
}

pub open spec fn route_fn() -> spec_fn(RouteRecord) -> Option<Seq<char>> {
    |r: RouteRecord| route_line(r)
}

pub open spec fn conflict_record_fn() -> spec_fn(ConflictRecord) -> Option<Seq<char>> {
    |c: ConflictRecord| conflict_record_line(c)
}

pub open spec fn conflict_fn() -> spec_fn(Option<String>) -> Option<Seq<char>> {
    |c: Option<String>| conflict_line(c)
}

/// A line with a prefix, when there is a value.
pub open spec fn opt_line(prefix: Seq<char>, o: Option<Seq<char>>) -> Seq<Seq<char>> {
    match o {
        Some(x) => seq![prefix + x],
        None => Seq::empty(),
    }
}

/// A section: its title and lines, or nothing when it has no lines.
pub open spec fn section(title: Seq<char>, lines: Seq<Seq<char>>) -> Seq<Seq<char>> {
    if lines.len() > 0 { seq![title] + lines } else { Seq::empty() }
}

/// The verdict section: the reporter's summary, the overall conclusion,
/// the risks, the next action and the items, under one title when any of
/// them is there.
pub open spec fn verdict_lines(r: Option<SummaryRecord>) -> Seq<Seq<char>> {
    match r {
        None => Seq::empty(),
        Some(sr) => {
            let rep = trimmed_text(sr.reporter_summary);
            let ov = trimmed_text(sr.overall_conclusion);
            let nx = trimmed_text(sr.recommended_next_action);
            let risks = lines_of(sr.key_risks@, risk_fn());
            let items = lines_of(sr.items@, item_fn());
            if rep is Some || ov is Some || nx is Some || risks.len() > 0 || items.len() > 0 {
                seq!["[主裁决摘要]"@] + opt_line("- reporter: "@, rep) + opt_line("- overall: "@, ov) + risks
                    + opt_line("- next: "@, nx) + items
            } else {
                Seq::empty()
            }
        },
    }
}

/// The conflict lines: from the conflict records when the report has them,
/// else from the plain list.
pub open spec fn conflict_lines(r: OrchestrationReport) -> Seq<Seq<char>> {
    match r.conflict_records {
        Some(v) => lines_of(v@, conflict_record_fn()),
        None => lines_of(r.conflicts@, conflict_fn()),
    }
}

/// All lines of the orchestration details.
pub open spec fn details_lines(r: OrchestrationReport) -> Seq<Seq<char>> {
    verdict_lines(r.summary_record)
        + section("[编排角色]"@, lines_of(r.roles@, role_fn()))
        + section("[角色路由]"@, lines_of(r.route_records@, route_fn()))
        + section("[冲突]"@, conflict_lines(r))
}

/// The orchestration details as text, one line each; none when there is
/// nothing to show.
pub open spec fn orchestration_details(r: OrchestrationReport) -> Option<Seq<char>> {
    let l = details_lines(r);
    if l.len() == 0 { None } else { Some(join(l, "\n"@)) }
}

/// Executable `int_text`.
pub fn i64_to_string(n: i64) -> (r: String)
    ensures
        r@ == int_text(n as int),
{
    if n < 0 {
        let m: u64 = ((-(n + 1)) as u64) + 1;
        let mut s = String::from_str("-");
        s.append(u64_to_string(m).as_str());
        s
    } else {
        u64_to_string(n as u64)
    }
}

fn push_line(out: &mut Vec<String>, s: String)
    ensures
        strings_view(final(out)@) == strings_view(old(out)@).push(s@),
{
    let ghost prev = out@;
    out.push(s);
    proof {
        prev.lemma_push_map_commute(|x: String| x@, s);
    }
}

fn text2(a: &str, b: &str) -> (r: String)
    ensures
        r@ == a@ + b@,
{
    let mut s = String::from_str(a);
    s.append(b);
    s
}

fn trimmed(o: &Option<String>) -> (r: Option<String>)
    ensures
        crate::task_store::opt_view(r) == trimmed_text(*o),
{
    match o {
        Some(s) => {
            let t = trim_str(s.as_str());
            if t.as_str().unicode_len() > 0 { Some(t) } else { None }
        },
        None => None,
    }
}

fn auto_text(o: &Option<String>) -> (r: &str)
    ensures
        r@ == or_auto(*o),
{
    match o {
        Some(s) => s.as_str(),
        None => "auto",
    }
}

fn flag_str(b: Option<bool>) -> (r: &'static str)
    ensures
        r@ == flag_text(b == Some(true)),
{
    match b {
        Some(true) => "true",
        _ => "false",
    }
}

fn risk_text(r: &Option<String>) -> (l: Option<String>)
    ensures
        crate::task_store::opt_view(l) == risk_line(*r),
{
    match r {
        Some(s) => Some(text2("- risk: ", s.as_str())),
        None => None,
    }
}

fn item_text(i: &SummaryItem) -> (l: Option<String>)
    ensures
        crate::task_store::opt_view(l) == item_line(*i),
{
    match (&i.role_id, trimmed(&i.output)) {
        (Some(r), Some(o)) => {
            let mut s = text2("- ", r.as_str());
            s.append(" [");
            s.append(auto_text(&i.route));
            s.append("]: ");
            s.append(o.as_str());
            Some(s)
        },
        _ => None,
    }
}

fn role_text(r: &PlannedRole) -> (l: Option<String>)
    ensures
        crate::task_store::opt_view(l) == role_line(*r),
{
    match &r.role_id {
        Some(id) => {
            let mut s = text2("- ", id.as_str());
            s.append(": ");
            s.append(auto_text(&r.preferred_model));
            s.append(" thinking=");
            s.append(flag_str(r.needs_thinking));
            Some(s)
        },
        None => None,
    }
}

fn route_text(r: &RouteRecord) -> (l: Option<String>)
    ensures
        crate::task_store::opt_view(l) == route_line(*r),
{
    match (&r.role_id, &r.primary) {
        (Some(id), Some(p)) => {
            let mut s = text2("- ", id.as_str());
            s.append(": ");
            s.append(auto_text(&p.provider_name));
            s.append("/");
            s.append(auto_text(&p.model_name));
            s.append(" score=");
            let score: i64 = match p.route_score {
                Some(x) => x,
                None => 0,
            };
            s.append(i64_to_string(score).as_str());
            s.append(" thinking=");
            s.append(flag_str(p.needs_thinking));
            Some(s)
        },
        _ => None,
    }
}

fn conflict_record_text(c: &ConflictRecord) -> (l: Option<String>)
    ensures
        crate::task_store::opt_view(l) == conflict_record_line(*c),
{
    match &c.summary {
        Some(sm) => {
            let kind: &str = match &c.kind {
                Some(k) => k.as_str(),
                None => "conflict",
            };
            let mut s = text2("- [", conflict_kind_label(kind));
            s.append("] ");
            s.append(sm.as_str());
            Some(s)
        },
        None => None,
    }
}

fn conflict_text(c: &Option<String>) -> (l: Option<String>)
    ensures
        crate::task_store::opt_view(l) == conflict_line(*c),
{
    match c {
        Some(s) => Some(text2("- ", s.as_str())),
        None => None,
    }
}

proof fn lemma_lines_of_step<A>(s: Seq<A>, i: int, f: spec_fn(A) -> Option<Seq<char>>)
    requires
        0 <= i < s.len(),
    ensures
        lines_of(s.take(i + 1), f) == match f(s[i]) {
            Some(l) => lines_of(s.take(i), f).push(l),
            None => lines_of(s.take(i), f),
        },
{
    assert(s.take(i + 1).drop_last() =~= s.take(i));
    assert(s.take(i + 1).last() == s[i]);
}

fn risk_lines(v: &Vec<Option<String>>) -> (r: Vec<String>)
    ensures
        strings_view(r@) == lines_of(v@, risk_fn()),
{
    let mut out: Vec<String> = Vec::new();
    let mut i: usize = 0;
    assert(v@.take(0) =~= Seq::<Option<String>>::empty());
    while i < v.len()
        invariant
            i <= v@.len(),
            strings_view(out@) == lines_of(v@.take(i as int), risk_fn()),
        decreases v@.len() - i,
    {
        proof { lemma_lines_of_step(v@, i as int, risk_fn()); }
        match risk_text(&v[i]) {
            Some(l) => push_line(&mut out, l),
            None => {},
        }
        i = i + 1;
    }
    assert(v@.take(v@.len() as int) =~= v@);
    out
}

fn item_lines(v: &Vec<SummaryItem>) -> (r: Vec<String>)
    ensures
        strings_view(r@) == lines_of(v@, item_fn()),
{
    let mut out: Vec<String> = Vec::new();
    let mut i: usize = 0;
    assert(v@.take(0) =~= Seq::<SummaryItem>::empty());
    while i < v.len()
        invariant
            i <= v@.len(),
            strings_view(out@) == lines_of(v@.take(i as int), item_fn()),
        decreases v@.len() - i,
    {
        proof { lemma_lines_of_step(v@, i as int, item_fn()); }
        match item_text(&v[i]) {
            Some(l) => push_line(&mut out, l),
            None => {},
        }
        i = i + 1;
    }
    assert(v@.take(v@.len() as int) =~= v@);
    out
}

fn role_lines(v: &Vec<PlannedRole>) -> (r: Vec<String>)
    ensures
        strings_view(r@) == lines_of(v@, role_fn()),
{
    let mut out: Vec<String> = Vec::new();
    let mut i: usize = 0;
    assert(v@.take(0) =~= Seq::<PlannedRole>::empty());
    while i < v.len()
        invariant
            i <= v@.len(),
            strings_view(out@) == lines_of(v@.take(i as int), role_fn()),
        decreases v@.len() - i,
    {
        proof { lemma_lines_of_step(v@, i as int, role_fn()); }
        match role_text(&v[i]) {
            Some(l) => push_line(&mut out, l),
            None => {},
        }
        i = i + 1;
    }
    assert(v@.take(v@.len() as int) =~= v@);
    out
}

fn route_lines(v: &Vec<RouteRecord>) -> (r: Vec<String>)
    ensures
        strings_view(r@) == lines_of(v@, route_fn()),
{
    let mut out: Vec<String> = Vec::new();
    let mut i: usize = 0;
    assert(v@.take(0) =~= Seq::<RouteRecord>::empty());
    while i < v.len()
        invariant
            i <= v@.len(),
            strings_view(out@) == lines_of(v@.take(i as int), route_fn()),
        decreases v@.len() - i,
    {
        proof { lemma_lines_of_step(v@, i as int, route_fn()); }
        match route_text(&v[i]) {
            Some(l) => push_line(&mut out, l),
            None => {},
        }
        i = i + 1;
    }
    assert(v@.take(v@.len() as int) =~= v@);
    out
}

fn conflict_record_lines(v: &Vec<ConflictRecord>) -> (r: Vec<String>)
    ensures
        strings_view(r@) == lines_of(v@, conflict_record_fn()),
{
    let mut out: Vec<String> = Vec::new();
    let mut i: usize = 0;
    assert(v@.take(0) =~= Seq::<ConflictRecord>::empty());
    while i < v.len()
        invariant
            i <= v@.len(),
            strings_view(out@) == lines_of(v@.take(i as int), conflict_record_fn()),
        decreases v@.len() - i,
    {
        proof { lemma_lines_of_step(v@, i as int, conflict_record_fn()); }
        match conflict_record_text(&v[i]) {
            Some(l) => push_line(&mut out, l),
            None => {},
        }
        i = i + 1;
    }
    assert(v@.take(v@.len() as int) =~= v@);
    out
}

fn plain_conflict_lines(v: &Vec<Option<String>>) -> (r: Vec<String>)
    ensures
        strings_view(r@) == lines_of(v@, conflict_fn()),
{
    let mut out: Vec<String> = Vec::new();
    let mut i: usize = 0;
    assert(v@.take(0) =~= Seq::<Option<String>>::empty());
    while i < v.len()
        invariant
            i <= v@.len(),
            strings_view(out@) == lines_of(v@.take(i as int), conflict_fn()),
        decreases v@.len() - i,
    {
        proof { lemma_lines_of_step(v@, i as int, conflict_fn()); }
        match conflict_text(&v[i]) {
            Some(l) => push_line(&mut out, l),
            None => {},
        }
        i = i + 1;
    }
    assert(v@.take(v@.len() as int) =~= v@);
    out
}

/// Appends the strings of `more`.
fn append_all(out: &mut Vec<String>, more: Vec<String>)
    ensures
        strings_view(final(out)@) == strings_view(old(out)@) + strings_view(more@),
{
    let ghost base = strings_view(out@);
    let mut i: usize = 0;
    assert(strings_view(more@).take(0) =~= Seq::<Seq<char>>::empty());
    while i < more.len()
        invariant
            i <= more@.len(),
            strings_view(out@) == base + strings_view(more@).take(i as int),
        decreases more@.len() - i,
    {
        let x = more[i].clone();
        proof {
            assert(strings_view(more@)[i as int] == more@[i as int]@);
            assert(strings_view(more@).take(i + 1) =~= strings_view(more@).take(i as int).push(x@));
        }
        push_line(out, x);
        assert(strings_view(out@) =~= base + strings_view(more@).take(i + 1));
        i = i + 1;
    }
    assert(strings_view(more@).take(more@.len() as int) =~= strings_view(more@));
}

/// Appends a section: its title and lines, when it has lines.
fn append_section(out: &mut Vec<String>, title: &str, lines: Vec<String>)
    ensures
        strings_view(final(out)@) == strings_view(old(out)@) + section(title@, strings_view(lines@)),
{
    if lines.len() > 0 {
        let ghost base = strings_view(out@);
        push_line(out, String::from_str(title));
        append_all(out, lines);
        assert(strings_view(out@) =~= base + section(title@, strings_view(lines@)));
    } else {
        assert(strings_view(out@) + section(title@, strings_view(lines@)) =~= strings_view(out@));
    }
}

fn verdict_section(r: &Option<SummaryRecord>) -> (out: Vec<String>)
    ensures
        strings_view(out@) == verdict_lines(*r),
{
    let mut out: Vec<String> = Vec::new();
    match r {
        None => {
            assert(strings_view(out@) =~= Seq::<Seq<char>>::empty());
        },
        Some(sr) => {
            let rep = trimmed(&sr.reporter_summary);
            let ov = trimmed(&sr.overall_conclusion);
            let nx = trimmed(&sr.recommended_next_action);
            let risks = risk_lines(&sr.key_risks);
            let items = item_lines(&sr.items);
            if rep.is_some() || ov.is_some() || nx.is_some() || risks.len() > 0 || items.len() > 0 {
                push_line(&mut out, String::from_str("[主裁决摘要]"));
                let ghost head = strings_view(out@);
                match rep {
                    Some(x) => push_line(&mut out, text2("- reporter: ", x.as_str())),
                    None => {},
                }
                let ghost a = strings_view(out@);
                assert(a =~= head + opt_line("- reporter: "@, trimmed_text(sr.reporter_summary)));
                match ov {
                    Some(x) => push_line(&mut out, text2("- overall: ", x.as_str())),
                    None => {},
                }
                let ghost b = strings_view(out@);
                assert(b =~= a + opt_line("- overall: "@, trimmed_text(sr.overall_conclusion)));
                append_all(&mut out, risks);
                let ghost c = strings_view(out@);
                match nx {
                    Some(x) => push_line(&mut out, text2("- next: ", x.as_str())),
                    None => {},
                }
                assert(strings_view(out@) =~= c + opt_line("- next: "@, trimmed_text(sr.recommended_next_action)));
                append_all(&mut out, items);
            } else {
                assert(strings_view(out@) =~= Seq::<Seq<char>>::empty());
            }
        },
    }
    out
}

/// Executable `orchestration_details`.
pub fn format_orchestration_details(r: &OrchestrationReport) -> (out: Option<String>)
    ensures
        crate::task_store::opt_view(out) == orchestration_details(*r),
{
    let mut lines = verdict_section(&r.summary_record);
    append_section(&mut lines, "[编排角色]", role_lines(&r.roles));
    append_section(&mut lines, "[角色路由]", route_lines(&r.route_records));
    let conflicts = match &r.conflict_records {
        Some(v) => conflict_record_lines(v),
        None => plain_conflict_lines(&r.conflicts),
    };
    append_section(&mut lines, "[冲突]", conflicts);
    assert(strings_view(lines@) =~= details_lines(*r));
    if lines.len() == 0 {
        None
    } else {
        Some(join_strings(&lines, "\n"))
    }
}

} // verus!
