//! The changed-files panel: what `git rev-parse --show-toplevel` and
//! `git status --short` report, turned into the lines the panel shows.

use vstd::prelude::*;
use crate::task_store::strings_view;
use crate::text::{trim, trim_chars, trim_str, split_on, split_chars, views, from_chars, to_chars};

verus! {

/// The status line of the `.sacode/` directory itself, which the panel
/// leaves out.
pub open spec fn is_shown_change(l: Seq<char>) -> bool {
    l.len() > 0 && l != "?? .sacode/"@
}

/// The changes listed by `git status --short`: its lines trimmed, without
/// blank lines and without the line of the `.sacode/` directory.
pub open spec fn change_lines(out: Seq<char>) -> Seq<Seq<char>> {
    split_on(out, '\n').map_values(|l: Seq<char>| trim(l)).filter(|l: Seq<char>| is_shown_change(l))
}

fn is_sacode_line(l: &Vec<char>) -> (r: bool)
    ensures
        r == (l@ == "?? .sacode/"@),
{
    let t = to_chars("?? .sacode/");
    crate::text::chars_eq(l.as_slice(), t.as_slice())
}

/// Executable `change_lines`.
pub fn status_change_lines(out: &str) -> (r: Vec<String>)
    ensures
        strings_view(r@) == change_lines(out@),
{
    let c = to_chars(out);
    let parts = split_chars(c.as_slice(), '\n');
    let ghost trimmed = views(parts@).map_values(|l: Seq<char>| trim(l));
    let mut res: Vec<String> = Vec::new();
    let mut i: usize = 0;
    assert(trimmed.take(0).filter(|l: Seq<char>| is_shown_change(l)) =~= Seq::<Seq<char>>::empty());
    while i < parts.len()
        invariant
            i <= parts@.len(),
            trimmed == views(parts@).map_values(|l: Seq<char>| trim(l)),
            strings_view(res@) == trimmed.take(i as int).filter(|l: Seq<char>| is_shown_change(l)),
        decreases parts@.len() - i,
    {
        let t = trim_chars(parts[i].as_slice());
        proof {
            assert(views(parts@)[i as int] == parts@[i as int]@);
            assert(trimmed[i as int] == t@);
            assert(trimmed.take(i + 1) =~= trimmed.take(i as int).push(t@));
            trimmed.take(i as int).lemma_filter_push(t@, |l: Seq<char>| is_shown_change(l));
        }
        if t.len() > 0 && !is_sacode_line(&t) {
            let s = from_chars(t.as_slice());
            let ghost prev = res@;
            res.push(s);
            proof {
                prev.lemma_push_map_commute(|x: String| x@, s);
            }
        }
        i = i + 1;
    }
    assert(trimmed.take(trimmed.len() as int) =~= trimmed);
    res
}

/// What running a git command gave: whether it exited with success, and
/// what it printed on standard output and standard error; or why it could
/// not be run.
#[derive(Debug)]
pub enum GitRun {
    Ran(bool, String, String),
    Failed(String),
}

pub ghost enum GitRunView {
    Ran(bool, Seq<char>, Seq<char>),
    Failed(Seq<char>),
}

impl View for GitRun {
    type V = GitRunView;

    open spec fn view(&self) -> GitRunView {
        match self {
            GitRun::Ran(ok, o, e) => GitRunView::Ran(*ok, o@, e@),
            GitRun::Failed(m) => GitRunView::Failed(m@),
        }
    }
}

/// After asking git for the repository root: the root (trimmed output of a
/// successful run), or the single line the panel shows instead.
pub open spec fn repo_root_of(run: GitRunView) -> Result<Seq<char>, Seq<char>> {
    match run {
        GitRunView::Ran(true, out, _) => if trim(out).len() > 0 {
            Ok(trim(out))
        } else {
            Err("未检测到 Git 仓库"@)
        },
        GitRunView::Ran(false, _, _) => Err("当前目录不是 Git 仓库"@),
        GitRunView::Failed(m) => Err("读取 Git 仓库失败: "@ + m),
    }
}

/// Executable `repo_root_of`.
pub fn repo_root(run: &GitRun) -> (r: Result<String, String>)
    ensures
        match r {
            Ok(s) => repo_root_of(run@) == Ok::<Seq<char>, Seq<char>>(s@),
            Err(s) => repo_root_of(run@) == Err::<Seq<char>, Seq<char>>(s@),
        },
{
    match run {
        GitRun::Ran(ok, out, _) => {
            if *ok {
                let t = trim_str(out.as_str());
                if t.as_str().unicode_len() > 0 {
                    Ok(t)
                } else {
                    Err(String::from_str("未检测到 Git 仓库"))
                }
            } else {
                Err(String::from_str("当前目录不是 Git 仓库"))
            }
        },
        GitRun::Failed(m) => {
            let mut s = String::from_str("读取 Git 仓库失败: ");
            s.append(m.as_str());
            Err(s)
        },
    }
}

/// After `git status --short`: the changes, or the single line telling
/// why there are none to show.
pub open spec fn status_panel_of(run: GitRunView) -> Seq<Seq<char>> {
    match run {
        GitRunView::Ran(true, out, _) => change_lines(out),
        GitRunView::Ran(false, _, err) => seq!["git status 失败: "@ + trim(err)],
        GitRunView::Failed(m) => seq!["读取 Git 变更失败: "@ + m],
    }
}

/// Executable `status_panel_of`.
pub fn status_panel(run: &GitRun) -> (r: Vec<String>)
    ensures
        strings_view(r@) == status_panel_of(run@),
{
    match run {
        GitRun::Ran(ok, out, err) => {
            if *ok {
                status_change_lines(out.as_str())
            } else {
                let mut s = String::from_str("git status 失败: ");
                s.append(trim_str(err.as_str()).as_str());
                let v = vec![s];
                assert(strings_view(v@) =~= seq![s@]);
                v
            }
        },
        GitRun::Failed(m) => {
            let mut s = String::from_str("读取 Git 变更失败: ");
            s.append(m.as_str());
            let v = vec![s];
            assert(strings_view(v@) =~= seq![s@]);
            v
        },
    }
}

} // verus!
