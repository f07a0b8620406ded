//! Saved sessions: the list the session picker shows (user-level files
//! first, then the project's, each session once, newest first), where the
//! picker starts, and the texts of a new or cleared session.

use vstd::prelude::*;
use crate::order::{seq_compare, compare_str};
use crate::service_commands::is_text;

verus! {

/// A saved session as the picker shows it.
#[derive(Debug)]
pub struct SessionInfo {
    pub id: String,
    pub updated_at: String,
    pub title: String,
}

pub ghost struct SessionView {
    pub id: Seq<char>,
    pub updated_at: Seq<char>,
    pub title: Seq<char>,
}

impl View for SessionInfo {
    type V = SessionView;

    open spec fn view(&self) -> SessionView {
        SessionView { id: self.id@, updated_at: self.updated_at@, title: self.title@ }
    }
}

pub open spec fn sessions_view(v: Seq<SessionInfo>) -> Seq<SessionView> {
    v.map_values(|s: SessionInfo| s@)
}

impl SessionInfo {
    fn copy(&self) -> (r: Self)
        ensures
            r@ == self@,
    {
        SessionInfo { id: self.id.clone(), updated_at: self.updated_at.clone(), title: self.title.clone() }
    }
}

/// Some entry of `s` has this id.
pub open spec fn has_id(s: Seq<SessionView>, id: Seq<char>) -> bool {
    exists|i: int| 0 <= i < s.len() && #[trigger] s[i].id == id
}

/// Each session once: an entry whose id came before is dropped.
pub open spec fn first_of_each(s: Seq<SessionView>) -> Seq<SessionView>
    decreases s.len(),
{
    if s.len() == 0 {
        s
    } else {
        let t = first_of_each(s.drop_last());
        if has_id(t, s.last().id) { t } else { t.push(s.last()) }
    }
}

/// Where a stable sort, newest first, puts `x` into the sorted `s`: after
/// every entry updated no earlier than it.
pub open spec fn newest_insert_pos(s: Seq<SessionView>, x: SessionView) -> int
    decreases s.len(),
{
    if s.len() > 0 && seq_compare(s.last().updated_at, x.updated_at) < 0 {
        newest_insert_pos(s.drop_last(), x)
    } else {
        s.len() as int
    }
}

/// The sessions newest first (by `updated_at` as text), keeping the order of
/// equal times.
pub open spec fn newest_first(s: Seq<SessionView>) -> Seq<SessionView>
    decreases s.len(),
{
    if s.len() == 0 {
        s
    } else {
        let t = newest_first(s.drop_last());
        t.insert(newest_insert_pos(t, s.last()), s.last())
    }
}

/// The picker's list: the user-level sessions, then the project's, each
/// once, newest first.
pub open spec fn session_list(user: Seq<SessionView>, project: Seq<SessionView>) -> Seq<SessionView> {
    newest_first(first_of_each(user + project))
}

proof fn lemma_newest_insert_pos_bounds(s: Seq<SessionView>, x: SessionView)
    ensures
        0 <= newest_insert_pos(s, x) <= s.len(),
    decreases s.len(),
{
    if s.len() > 0 && seq_compare(s.last().updated_at, x.updated_at) < 0 {
        lemma_newest_insert_pos_bounds(s.drop_last(), x);
    }
}

proof fn lemma_newest_first_len(s: Seq<SessionView>)
    ensures
        newest_first(s).len() == s.len(),
    decreases s.len(),
{
    if s.len() > 0 {
        lemma_newest_first_len(s.drop_last());
        lemma_newest_insert_pos_bounds(newest_first(s.drop_last()), s.last());
    }
}

fn contains_id(v: &Vec<SessionInfo>, id: &str) -> (r: bool)
    ensures
        r == has_id(sessions_view(v@), id@),
{
    let ghost sv = sessions_view(v@);
    let mut i: usize = 0;
    while i < v.len()
        invariant
            i <= v@.len(),
            sv == sessions_view(v@),
            forall|j: int| 0 <= j < i ==> sv[j].id != id@,
        decreases v@.len() - i,
    {
        assert(sv[i as int] == v@[i as int]@);
        if is_text(v[i].id.as_str(), id) {
            assert(sv[i as int].id == id@);
            return true;
        }
        i = i + 1;
    }
    false
}

fn push_session(out: &mut Vec<SessionInfo>, x: SessionInfo)
    ensures
        sessions_view(final(out)@) == sessions_view(old(out)@).push(x@),
{
    let ghost prev = out@;
    out.push(x);
    proof {
        prev.lemma_push_map_commute(|s: SessionInfo| s@, x);
    }
}

/// Executable `session_list`.
pub fn list_sessions(user: &Vec<SessionInfo>, project: &Vec<SessionInfo>) -> (r: Vec<SessionInfo>)
    ensures
        sessions_view(r@) == session_list(sessions_view(user@), sessions_view(project@)),
{
    let ghost all = sessions_view(user@) + sessions_view(project@);
    let mut unique: Vec<SessionInfo> = Vec::new();
    let mut i: usize = 0;
    assert(all.take(0) =~= Seq::<SessionView>::empty());
    assert(sessions_view(unique@) =~= Seq::<SessionView>::empty());
    while i < user.len()
        invariant
            i <= user@.len(),
            all == sessions_view(user@) + sessions_view(project@),
            sessions_view(unique@) == first_of_each(all.take(i as int)),
        decreases user@.len() - i,
    {
        proof {
            assert(all.take(i + 1).drop_last() =~= all.take(i as int));
            assert(all.take(i + 1).last() == user@[i as int]@);
        }
        if !contains_id(&unique, user[i].id.as_str()) {
            push_session(&mut unique, user[i].copy());
        }
        i = i + 1;
    }
    let mut k: usize = 0;
    while k < project.len()
        invariant
            k <= project@.len(),
            all == sessions_view(user@) + sessions_view(project@),
            sessions_view(unique@) == first_of_each(all.take(user@.len() + k)),
        decreases project@.len() - k,
    {
        proof {
            let n = user@.len() + k;
            assert(all.take(n + 1).drop_last() =~= all.take(n as int));
            assert(all.take(n + 1).last() == project@[k as int]@);
        }
        if !contains_id(&unique, project[k].id.as_str()) {
            push_session(&mut unique, project[k].copy());
        }
        k = k + 1;
    }
    assert(all.take(all.len() as int) =~= all);
    let ghost u = sessions_view(unique@);
    // Insertion sort, newest first, stable.
    let mut out: Vec<SessionInfo> = Vec::new();
    let mut j: usize = 0;
    assert(u.take(0) =~= Seq::<SessionView>::empty());
    assert(sessions_view(out@) =~= Seq::<SessionView>::empty());
    while j < unique.len()
        invariant
            j <= unique@.len(),
            u == sessions_view(unique@),
            sessions_view(out@) == newest_first(u.take(j as int)),
        decreases unique@.len() - j,
    {
        let x = unique[j].copy();
        let ghost cur = sessions_view(out@);
        proof {
            lemma_newest_first_len(u.take(j as int));
        }
        let mut p: usize = out.len();
        assert(cur.take(p as int) =~= cur);
        while p > 0 && compare_str(out[p - 1].updated_at.as_str(), x.updated_at.as_str()) < 0
            invariant
                p <= out@.len(),
                cur == sessions_view(out@),
                newest_insert_pos(cur, x@) == newest_insert_pos(cur.take(p as int), x@),
            decreases p,
        {
            proof {
                assert(cur.take(p as int).drop_last() =~= cur.take(p - 1));
                assert(cur.take(p as int).last() == out@[p - 1]@);
            }
            p = p - 1;
        }
        proof {
            if p > 0 {
                assert(cur.take(p as int).last() == out@[p - 1]@);
            }
            assert(newest_insert_pos(cur.take(p as int), x@) == p);
            assert(u.take(j + 1).drop_last() =~= u.take(j as int));
            assert(u.take(j + 1).last() == x@);
            assert(sessions_view(out@.insert(p as int, x)) =~= cur.insert(p as int, x@));
        }
        out.insert(p, x);
        j = j + 1;
    }
    assert(u.take(u.len() as int) =~= u);
    out
}

/// Where the session picker starts: on the current session, else on the
/// first.
pub fn session_picker_start(sessions: &Vec<SessionInfo>, current_id: &str) -> (r: usize)
    ensures
        has_id(sessions_view(sessions@), current_id@) ==> (r < sessions@.len() && sessions@[r as int].id@
            == current_id@ && forall|j: int| 0 <= j < r ==> sessions@[j].id@ != current_id@),
        !has_id(sessions_view(sessions@), current_id@) ==> r == 0,
{
    let mut i: usize = 0;
    while i < sessions.len()
        invariant
            i <= sessions@.len(),
            forall|j: int| 0 <= j < i ==> sessions@[j].id@ != current_id@,
        decreases sessions@.len() - i,
    {
        if is_text(sessions[i].id.as_str(), current_id) {
            proof {
                assert(sessions_view(sessions@)[i as int].id == current_id@);
            }
            return i;
        }
        i = i + 1;
    }
    proof {
        if has_id(sessions_view(sessions@), current_id@) {
            let k = choose|k: int| 0 <= k < sessions_view(sessions@).len() && #[trigger] sessions_view(sessions@)[k].id == current_id@;
            assert(sessions@[k].id@ == current_id@);
        }
    }
    0
}

/// The id of a session started at `stamp` (`%Y%m%d%H%M%S`).
pub fn new_session_id(stamp: &str) -> (r: String)
    ensures
        r@ == "session-"@ + stamp@,
{
    let mut s = String::from_str("session-");
    s.append(stamp);
    s
}

/// The first message of a new session.
pub fn new_session_greeting() -> (r: &'static str)
    ensures
        r@ == "SaCode - 新会话\n\n上下键可浏览输入历史，/sessions 可切换历史会话。"@,
{
    "SaCode - 新会话\n\n上下键可浏览输入历史，/sessions 可切换历史会话。"
}

/// The message left after `/clear`.
pub fn cleared_context_notice() -> (r: &'static str)
    ensures
        r@ == "当前会话上下文已清空。"@,
{
    "当前会话上下文已清空。"
}

/// The listing keeps one entry per session: no two entries share an id.
pub proof fn law_each_session_listed_once(s: Seq<SessionView>)
    ensures
        forall|i: int, j: int| 0 <= i < j < first_of_each(s).len() ==> first_of_each(s)[i].id != first_of_each(s)[j].id,
    decreases s.len(),
{
    if s.len() > 0 {
        law_each_session_listed_once(s.drop_last());
        let t = first_of_each(s.drop_last());
        if !has_id(t, s.last().id) {
            assert forall|i: int, j: int| 0 <= i < j < t.push(s.last()).len() implies t.push(s.last())[i].id != t.push(s.last())[j].id by {
                if j == t.len() {
                    assert(t.push(s.last())[i] == t[i]);
                    if t[i].id == s.last().id {
                        assert(has_id(t, s.last().id));
                    }
                }
            }
        }
    }
}

} // verus!
