//! Checkpoints: the conversation saved under a name in
//! `.sacode/checkpoints/<name>.json` and restored from there.

use vstd::prelude::*;
use crate::task_store::strings_view;
use crate::words::{words, split_whitespace};

verus! {

/// Who a message in the conversation comes from.
#[derive(Debug, Clone, Copy, PartialEq, Eq, Structural)]
pub enum MessageRole {
    User,
    Assistant,
    System,
}

pub open spec fn role_text(r: MessageRole) -> Seq<char> {
    match r {
        MessageRole::User => "user"@,
        MessageRole::Assistant => "assistant"@,
        MessageRole::System => "system"@,
    }
}

/// The name a role is saved under.
pub fn role_name(r: MessageRole) -> (s: &'static str)
    ensures
        s@ == role_text(r),
{
    match r {
        MessageRole::User => "user",
        MessageRole::Assistant => "assistant",
        MessageRole::System => "system",
    }
}

pub open spec fn role_of(name: Seq<char>) -> MessageRole {
    if name == "user"@ {
        MessageRole::User
    } else if name == "assistant"@ {
        MessageRole::Assistant
    } else {
        MessageRole::System
    }
}

fn is_text(a: &str, b: &str) -> (r: bool)
    ensures
        r == (a@ == b@),
{
    crate::text::chars_eq(crate::text::to_chars(a).as_slice(), crate::text::to_chars(b).as_slice())
}

/// The role a saved name stands for; an unknown or missing name is read as
/// a system message.
pub fn role_from_name(name: Option<&str>) -> (r: MessageRole)
    ensures
        r == match name {
            Some(n) => role_of(n@),
            None => MessageRole::System,
        },
{
    match name {
        Some(n) => if is_text(n, "user") {
            MessageRole::User
        } else if is_text(n, "assistant") {
            MessageRole::Assistant
        } else {
            MessageRole::System
        },
        None => MessageRole::System,
    }
}

/// The file of a checkpoint, relative to the checkpoint directory.
pub fn checkpoint_file_name(name: &str) -> (r: String)
    ensures
        r@ == name@ + ".json"@,
{
    let mut s = String::from_str(name);
    s.append(".json");
    s
}

/// What a `/checkpoint` line asks for.
#[derive(Debug)]
pub enum CheckpointRequest {
    /// The checkpoint picker (also for `list`).
    List,
    /// Restore the named checkpoint, or pick one to restore.
    Restore(Option<String>),
    /// Delete the named checkpoint, or pick one to delete.
    Delete(Option<String>),
    Save(String),
    SaveUsage,
    Usage,
}

pub ghost enum CheckpointRequestView {
    List,
    Restore(Option<Seq<char>>),
    Delete(Option<Seq<char>>),
    Save(Seq<char>),
    SaveUsage,
    Usage,
}

impl View for CheckpointRequest {
    type V = CheckpointRequestView;

    open spec fn view(&self) -> CheckpointRequestView {
        match self {
            CheckpointRequest::List => CheckpointRequestView::List,
            CheckpointRequest::Restore(n) => CheckpointRequestView::Restore(crate::task_store::opt_view(*n)),
            CheckpointRequest::Delete(n) => CheckpointRequestView::Delete(crate::task_store::opt_view(*n)),
            CheckpointRequest::Save(n) => CheckpointRequestView::Save(n@),
            CheckpointRequest::SaveUsage => CheckpointRequestView::SaveUsage,
            CheckpointRequest::Usage => CheckpointRequestView::Usage,
        }
    }
}

/// The request of a `/checkpoint` line, from its words.
pub open spec fn checkpoint_request_of(w: Seq<Seq<char>>) -> CheckpointRequestView {
    let name = if w.len() > 2 { Some(w[2]) } else { None };
    if w.len() <= 1 || w[1] == "list"@ {
        CheckpointRequestView::List
    } else if w[1] == "restore"@ {
        CheckpointRequestView::Restore(name)
    } else if w[1] == "delete"@ {
        CheckpointRequestView::Delete(name)
    } else if w[1] == "save"@ {
        match name {
            Some(n) => CheckpointRequestView::Save(n),
            None => CheckpointRequestView::SaveUsage,
        }
    } else {
        CheckpointRequestView::Usage
    }
}

/// Reads a `/checkpoint` line.
pub fn parse_checkpoint_command(line: &str) -> (r: CheckpointRequest)
    ensures
        r@ == checkpoint_request_of(words(line@)),
{
    let w = split_whitespace(line);
    let n = w.len();
    proof {
        if n > 1 {
            assert(strings_view(w@)[1] == w@[1]@);
        }
        if n > 2 {
            assert(strings_view(w@)[2] == w@[2]@);
        }
    }
    let name = if n > 2 { Some(w[2].clone()) } else { None };
    if n <= 1 || is_text(w[1].as_str(), "list") {
        CheckpointRequest::List
    } else if is_text(w[1].as_str(), "restore") {
        CheckpointRequest::Restore(name)
    } else if is_text(w[1].as_str(), "delete") {
        CheckpointRequest::Delete(name)
    } else if is_text(w[1].as_str(), "save") {
        match name {
            Some(x) => CheckpointRequest::Save(x),
            None => CheckpointRequest::SaveUsage,
        }
    } else {
        CheckpointRequest::Usage
    }
}

/// A role saved in a checkpoint is read back as the same role.
pub proof fn law_saved_role_reads_back(r: MessageRole)
    ensures
        role_of(role_text(r)) == r,
{
    reveal_strlit("user");
    reveal_strlit("assistant");
    reveal_strlit("system");
    assert("system"@.len() != "user"@.len());
    assert("system"@.len() != "assistant"@.len());
    assert("assistant"@.len() != "user"@.len());
}


// ---------------------------------------------------------------------
// The checkpoint directory
// ---------------------------------------------------------------------

/// The name before the `.json` extension of a file name (its stem), when
/// the extension is `json`; as for `Path::extension`, a name whose only dot
/// comes first has no extension.
pub open spec fn json_stem(name: Seq<char>) -> Option<Seq<char>> {
    if exists|k: int| 0 < k < name.len() && name[k] == '.' && (forall|j: int| k < j < name.len() ==> name[j] != '.') && name.skip(k + 1) == "json"@ {
        let k = choose|k: int| 0 < k < name.len() && name[k] == '.' && (forall|j: int| k < j < name.len() ==> name[j] != '.') && name.skip(k + 1) == "json"@;
        Some(name.take(k))
    } else {
        None
    }
}

/// The checkpoints among the files of the directory: the stems of the
/// `.json` files, in order.
pub open spec fn checkpoint_names_of(files: Seq<Seq<char>>) -> Seq<Seq<char>>
    decreases files.len(),
{
    if files.len() == 0 {
        Seq::empty()
    } else {
        let rest = checkpoint_names_of(files.drop_last());
        match json_stem(files.last()) {
            Some(s) => rest.push(s),
            None => rest,
        }
    }
}

fn stem_of(name: &str) -> (r: Option<String>)
    ensures
        crate::task_store::opt_view(r) == json_stem(name@),
{
    let c = crate::text::to_chars(name);
    let n = c.len();
    let mut k: usize = n;
    // Find the last dot.
    let mut i: usize = 0;
    while i < n
        invariant
            i <= n,
            n == c@.len(),
            k == n || (k < i && c@[k as int] == '.'),
            k == n ==> forall|j: int| 0 <= j < i ==> c@[j] != '.',
            k < n ==> forall|j: int| k < j < i ==> c@[j] != '.',
        decreases n - i,
    {
        if c[i] == '.' {
            k = i;
        }
        i = i + 1;
    }
    let ghost sv = name@;
    assert(c@ == sv);
    if k == n || k == 0 {
        proof {
            if exists|m: int| 0 < m < sv.len() && sv[m] == '.' && (forall|j: int| m < j < sv.len() ==> sv[j] != '.') && sv.skip(m + 1) == "json"@ {
                let m = choose|m: int| 0 < m < sv.len() && sv[m] == '.' && (forall|j: int| m < j < sv.len() ==> sv[j] != '.') && sv.skip(m + 1) == "json"@;
                if k == 0 {
                    assert(sv[m] == '.');
                }
            }
        }
        return None;
    }
    let ext = crate::text::slice_chars(c.as_slice(), k + 1, n);
    let json = crate::text::to_chars("json");
    if crate::text::chars_eq(ext.as_slice(), json.as_slice()) {
        let head = crate::text::slice_chars(c.as_slice(), 0, k);
        proof {
            assert(ext@ =~= sv.skip(k + 1));
            assert(head@ =~= sv.take(k as int));
            let m = choose|m: int| 0 < m < sv.len() && sv[m] == '.' && (forall|j: int| m < j < sv.len() ==> sv[j] != '.') && sv.skip(m + 1) == "json"@;
            assert(0 < k < sv.len() && sv[k as int] == '.' && (forall|j: int| k < j < sv.len() ==> sv[j] != '.') && sv.skip(k + 1) == "json"@);
            if m < k {
                assert(sv[k as int] != '.');
            }
            if k < m {
                assert(sv[m] != '.');
            }
        }
        Some(crate::text::from_chars(head.as_slice()))
    } else {
        proof {
            assert(ext@ =~= sv.skip(k + 1));
            if exists|m: int| 0 < m < sv.len() && sv[m] == '.' && (forall|j: int| m < j < sv.len() ==> sv[j] != '.') && sv.skip(m + 1) == "json"@ {
                let m = choose|m: int| 0 < m < sv.len() && sv[m] == '.' && (forall|j: int| m < j < sv.len() ==> sv[j] != '.') && sv.skip(m + 1) == "json"@;
                if m < k {
                    assert(sv[k as int] != '.');
                }
                if k < m {
                    assert(sv[m] != '.');
                }
            }
        }
        None
    }
}

/// Executable `checkpoint_names_of`: the checkpoints among the file names
/// of the checkpoint directory.
pub fn checkpoint_names(files: &Vec<String>) -> (r: Vec<String>)
    ensures
        strings_view(r@) == checkpoint_names_of(strings_view(files@)),
{
    let ghost all = strings_view(files@);
    let mut out: Vec<String> = Vec::new();
    let mut i: usize = 0;
    assert(all.take(0) =~= Seq::<Seq<char>>::empty());
    while i < files.len()
        invariant
            i <= files@.len(),
            all == strings_view(files@),
            strings_view(out@) == checkpoint_names_of(all.take(i as int)),
        decreases files@.len() - i,
    {
        proof {
            assert(all.take(i + 1).drop_last() =~= all.take(i as int));
            assert(all.take(i + 1).last() == files@[i as int]@);
        }
        match stem_of(files[i].as_str()) {
            Some(s) => {
                let ghost prev = out@;
                out.push(s);
                proof {
                    prev.lemma_push_map_commute(|x: String| x@, s);
                }
            },
            None => {},
        }
        i = i + 1;
    }
    assert(all.take(all.len() as int) =~= all);
    out
}

} // verus!
