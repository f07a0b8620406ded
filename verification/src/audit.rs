//! The code audit: its setting, the `/audit` command line, and the summary
//! of a scan.

use vstd::prelude::*;
use crate::text::{to_chars, chars_eq, decimal, u64_to_string};
use crate::task_store::strings_view;
use crate::words::{words, split_whitespace};
use crate::service_commands::is_text;

verus! {

/// The AI pass of the code audit is on unless the `code_audit.ai` setting
/// is exactly `false`; it is on when the setting is absent.
pub fn code_audit_ai_enabled(raw: Option<&str>) -> (r: bool)
    ensures
        r == match raw {
            Some(v) => v@ != "false"@,
            None => true,
        },
{
    match raw {
        Some(v) => !chars_eq(&to_chars(v), &to_chars("false")),
        None => true,
    }
}


/// What an `/audit` line asks for.
#[derive(Debug)]
pub enum AuditRequest {
    Help,
    /// Fill the input with a fix prompt made from this report.
    Fix(String),
    /// `fix` without a report.
    FixUsage,
    /// Scan the workspace (also for `/audit` alone and unknown words).
    Run,
}

pub ghost enum AuditRequestView {
    Help,
    Fix(Seq<char>),
    FixUsage,
    Run,
}

impl View for AuditRequest {
    type V = AuditRequestView;

    open spec fn view(&self) -> AuditRequestView {
        match self {
            AuditRequest::Help => AuditRequestView::Help,
            AuditRequest::Fix(p) => AuditRequestView::Fix(p@),
            AuditRequest::FixUsage => AuditRequestView::FixUsage,
            AuditRequest::Run => AuditRequestView::Run,
        }
    }
}

pub open spec fn audit_request_of(w: Seq<Seq<char>>) -> AuditRequestView {
    if w.len() <= 1 {
        AuditRequestView::Run
    } else if w[1] == "help"@ || w[1] == "--help"@ || w[1] == "-h"@ {
        AuditRequestView::Help
    } else if w[1] == "fix"@ {
        if w.len() > 2 { AuditRequestView::Fix(w[2]) } else { AuditRequestView::FixUsage }
    } else {
        AuditRequestView::Run
    }
}

/// Reads an `/audit` line.
pub fn parse_audit_command(line: &str) -> (r: AuditRequest)
    ensures
        r@ == audit_request_of(words(line@)),
{
    let w = split_whitespace(line);
    let n = w.len();
    if n <= 1 {
        return AuditRequest::Run;
    }
    proof {
        assert(strings_view(w@)[1] == w@[1]@);
        if n > 2 {
            assert(strings_view(w@)[2] == w@[2]@);
        }
    }
    let a = w[1].as_str();
    if is_text(a, "help") || is_text(a, "--help") || is_text(a, "-h") {
        AuditRequest::Help
    } else if is_text(a, "fix") {
        if n > 2 { AuditRequest::Fix(w[2].clone()) } else { AuditRequest::FixUsage }
    } else {
        AuditRequest::Run
    }
}

/// A finding of a scan.
#[derive(Debug)]
pub struct AuditFinding {
    pub severity: String,
    pub id: String,
    pub file: String,
    pub line: Option<u64>,
    pub title: String,
}

/// The counts of a scan.
#[derive(Debug)]
pub struct AuditCounts {
    pub high: u64,
    pub medium: u64,
    pub low: u64,
    pub info: u64,
    pub ai_used: bool,
    pub heuristic: u64,
    pub ai: u64,
}

pub open spec fn bool_text(b: bool) -> Seq<char> {
    if b { "true"@ } else { "false"@ }
}

/// The first line of the summary.
pub open spec fn counts_line(c: AuditCounts) -> Seq<char> {
    "代码审计完成: high="@ + decimal(c.high as nat) + " medium="@ + decimal(c.medium as nat) + " low="@
        + decimal(c.low as nat) + " info="@ + decimal(c.info as nat) + " ai="@ + bool_text(c.ai_used)
        + " (启发式="@ + decimal(c.heuristic as nat) + " AI发现="@ + decimal(c.ai as nat) + ")\n"@
}

/// The line of a finding.
pub open spec fn finding_line(f: AuditFinding) -> Seq<char> {
    "  ["@ + f.severity@ + "] "@ + f.id@ + " "@ + f.file@ + ":"@
        + decimal(match f.line { Some(l) => l as nat, None => 0 }) + " "@ + f.title@ + "\n"@
}

pub open spec fn finding_lines(f: Seq<AuditFinding>) -> Seq<char>
    decreases f.len(),
{
    if f.len() == 0 { Seq::empty() } else { finding_lines(f.drop_last()) + finding_line(f.last()) }
}

/// The summary of a scan: the counts, the first ten findings, how many
/// more there are, and the report with the command that fixes from it.
pub open spec fn audit_summary(c: AuditCounts, findings: Seq<AuditFinding>, report: Option<Seq<char>>) -> Seq<char> {
    counts_line(c) + finding_lines(findings.take(if findings.len() > 10 { 10 } else { findings.len() as int }))
        + (if findings.len() > 10 { "  ... 另有 "@ + decimal((findings.len() - 10) as nat) + " 条\n"@ } else { Seq::empty() })
        + match report {
            Some(p) => "报告: "@ + p + "\n"@ + "修复: /audit fix "@ + p,
            None => Seq::empty(),
        }
}

fn finding_text(f: &AuditFinding) -> (r: String)
    ensures
        r@ == finding_line(*f),
{
    let mut s = String::from_str("  [");
    s.append(f.severity.as_str());
    s.append("] ");
    s.append(f.id.as_str());
    s.append(" ");
    s.append(f.file.as_str());
    s.append(":");
    let line: u64 = match f.line {
        Some(l) => l,
        None => 0,
    };
    s.append(u64_to_string(line).as_str());
    s.append(" ");
    s.append(f.title.as_str());
    s.append("\n");
    s
}

/// Executable `audit_summary`.
pub fn audit_summary_text(c: &AuditCounts, findings: &Vec<AuditFinding>, report: Option<&str>) -> (r: String)
    requires
        findings@.len() <= u64::MAX,
    ensures
        r@ == audit_summary(*c, findings@, match report { Some(p) => Some(p@), None => None }),
{
    let mut s = String::from_str("代码审计完成: high=");
    s.append(u64_to_string(c.high).as_str());
    s.append(" medium=");
    s.append(u64_to_string(c.medium).as_str());
    s.append(" low=");
    s.append(u64_to_string(c.low).as_str());
    s.append(" info=");
    s.append(u64_to_string(c.info).as_str());
    s.append(" ai=");
    s.append(if c.ai_used { "true" } else { "false" });
    s.append(" (启发式=");
    s.append(u64_to_string(c.heuristic).as_str());
    s.append(" AI发现=");
    s.append(u64_to_string(c.ai).as_str());
    s.append(")\n");
    let ghost head = s@;
    assert(head == counts_line(*c));
    let shown = if findings.len() > 10 { 10 } else { findings.len() };
    let mut i: usize = 0;
    assert(findings@.take(0) =~= Seq::<AuditFinding>::empty());
    while i < shown
        invariant
            i <= shown,
            shown <= findings@.len(),
            s@ == head + finding_lines(findings@.take(i as int)),
        decreases shown - i,
    {
        let line = finding_text(&findings[i]);
        s.append(line.as_str());
        proof {
            assert(findings@.take(i + 1).drop_last() =~= findings@.take(i as int));
            assert(findings@.take(i + 1).last() == findings@[i as int]);
        }
        i = i + 1;
    }
    let ghost listed = s@;
    if findings.len() > 10 {
        s.append("  ... 另有 ");
        s.append(u64_to_string((findings.len() - 10) as u64).as_str());
        s.append(" 条\n");
    }
    let ghost counted = s@;
    assert(counted == listed + (if findings@.len() > 10 {
        "  ... 另有 "@ + decimal((findings@.len() - 10) as nat) + " 条\n"@
    } else {
        Seq::<char>::empty()
    }));
    match report {
        Some(p) => {
            s.append("报告: ");
            s.append(p);
            s.append("\n");
            s.append("修复: /audit fix ");
            s.append(p);
        },
        None => {},
    }
    s
}

/// The help of `/audit`.
pub fn audit_help() -> (r: &'static str)
    ensures
        r@ == "用法: /audit [run] | /audit fix <report.json|report.md>\n设置: /config 中 code_audit.ai 控制是否调用大模型（默认开启）\nCLI 对应: sacode audit [path] [--json|--ai|--no-ai]"@,
{
    "用法: /audit [run] | /audit fix <report.json|report.md>\n设置: /config 中 code_audit.ai 控制是否调用大模型（默认开启）\nCLI 对应: sacode audit [path] [--json|--ai|--no-ai]"
}

} // verus!
