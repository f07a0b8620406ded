//! The `/profile` command: listing, switching and showing providers.

use vstd::prelude::*;
use crate::task_store::strings_view;
use crate::words::{words, split_whitespace};
use crate::runner::{join, join_strings};

verus! {

/// What a `/profile` line asks for.
#[derive(Debug)]
pub enum ProfileRequest {
    /// `ls` (also with no sub-command).
    List,
    /// `use <name>`.
    Use(String),
    /// `use` alone: the provider picker opens.
    OpenSwitcher,
    /// `show [name]`: the named provider, else the current one.
    Show(String),
    /// `show` with no name and no current provider.
    ShowUsage,
    /// Anything else.
    Usage,
}

pub ghost enum ProfileRequestView {
    List,
    Use(Seq<char>),
    OpenSwitcher,
    Show(Seq<char>),
    ShowUsage,
    Usage,
}

impl View for ProfileRequest {
    type V = ProfileRequestView;

    open spec fn view(&self) -> ProfileRequestView {
        match self {
            ProfileRequest::List => ProfileRequestView::List,
            ProfileRequest::Use(s) => ProfileRequestView::Use(s@),
            ProfileRequest::OpenSwitcher => ProfileRequestView::OpenSwitcher,
            ProfileRequest::Show(s) => ProfileRequestView::Show(s@),
            ProfileRequest::ShowUsage => ProfileRequestView::ShowUsage,
            ProfileRequest::Usage => ProfileRequestView::Usage,
        }
    }
}

/// The request of a `/profile` line, from its words and the name of the
/// current provider (empty when there is none).
pub open spec fn profile_request_of(w: Seq<Seq<char>>, current: Seq<char>) -> ProfileRequestView {
    let sub = if w.len() > 1 { w[1] } else { "ls"@ };
    if sub == "ls"@ {
        ProfileRequestView::List
    } else if sub == "use"@ {
        if w.len() > 2 { ProfileRequestView::Use(w[2]) } else { ProfileRequestView::OpenSwitcher }
    } else if sub == "show"@ {
        let name = if w.len() > 2 { w[2] } else { current };
        if name.len() == 0 { ProfileRequestView::ShowUsage } else { ProfileRequestView::Show(name) }
    } else {
        ProfileRequestView::Usage
    }
}

fn is_text(a: &str, b: &str) -> (r: bool)
    ensures
        r == (a@ == b@),
{
    crate::text::chars_eq(crate::text::to_chars(a).as_slice(), crate::text::to_chars(b).as_slice())
}

/// Reads a `/profile` line.
pub fn parse_profile_command(line: &str, current: &str) -> (r: ProfileRequest)
    ensures
        r@ == profile_request_of(words(line@), current@),
{
    let w = split_whitespace(line);
    let n = w.len();
    proof {
        if n > 1 {
            assert(strings_view(w@)[1] == w@[1]@);
        }
        if n > 2 {
            assert(strings_view(w@)[2] == w@[2]@);
        }
    }
    let sub: &str = if n > 1 { w[1].as_str() } else { "ls" };
    if is_text(sub, "ls") {
        ProfileRequest::List
    } else if is_text(sub, "use") {
        if n > 2 { ProfileRequest::Use(w[2].clone()) } else { ProfileRequest::OpenSwitcher }
    } else if is_text(sub, "show") {
        let name: &str = if n > 2 { w[2].as_str() } else { current };
        if name.unicode_len() == 0 { ProfileRequest::ShowUsage } else { ProfileRequest::Show(name.to_string()) }
    } else {
        ProfileRequest::Usage
    }
}

/// One line of the provider list: the current provider marked with `*`.
pub open spec fn provider_line(name: Seq<char>, current: Seq<char>) -> Seq<char> {
    (if name == current { "* "@ } else { "  "@ }) + name
}

/// The provider list shown by `/profile ls`, or nothing when no provider
/// is configured.
pub open spec fn provider_list_text(names: Seq<Seq<char>>, current: Seq<char>) -> Option<Seq<char>> {
    if names.len() == 0 {
        None
    } else {
        let lines = Seq::new(names.len(), |i: int| provider_line(names[i], current));
        Some("Provider 配置列表:\n"@ + join(lines, "\n"@) + "\n当前: "@ + current)
    }
}

/// Executable `provider_list_text`.
pub fn provider_list(names: &Vec<String>, current: &str) -> (r: Option<String>)
    ensures
        crate::task_store::opt_view(r) == provider_list_text(strings_view(names@), current@),
{
    if names.len() == 0 {
        return None;
    }
    let ghost nv = strings_view(names@);
    let ghost all = Seq::new(nv.len(), |i: int| provider_line(nv[i], current@));
    let mut lines: Vec<String> = Vec::new();
    let mut i: usize = 0;
    assert(all.take(0) =~= Seq::<Seq<char>>::empty());
    while i < names.len()
        invariant
            i <= names@.len(),
            nv == strings_view(names@),
            all == Seq::new(nv.len(), |i: int| provider_line(nv[i], current@)),
            strings_view(lines@) == all.take(i as int),
        decreases names@.len() - i,
    {
        let mut line = if is_text(names[i].as_str(), current) {
            String::from_str("* ")
        } else {
            String::from_str("  ")
        };
        line.append(names[i].as_str());
        let ghost prev = lines@;
        proof {
            assert(nv[i as int] == names@[i as int]@);
        }
        lines.push(line);
        proof {
            prev.lemma_push_map_commute(|s: String| s@, line);
            assert(all.take(i + 1) =~= all.take(i as int).push(all[i as int]));
        }
        i = i + 1;
    }
    assert(all.take(all.len() as int) =~= all);
    let mut out = String::from_str("Provider 配置列表:\n");
    out.append(join_strings(&lines, "\n").as_str());
    out.append("\n当前: ");
    out.append(current);
    Some(out)
}

} // verus!
