//! The conversation shown in the interface, and the texts made from it: the
//! prompt of the next task (with the session summary and the last few
//! exchanges), the summary a session is compressed into, and its title.

use vstd::prelude::*;
use crate::checkpoint::MessageRole;
use crate::runner::{join, join_strings};
use crate::task_store::strings_view;
use crate::text::{trim, trim_str, to_chars, from_chars, slice_chars};
use crate::words::{words, split_whitespace};

verus! {

/// One message of the conversation.
#[derive(Debug)]
pub struct Message {
    pub role: MessageRole,
    pub content: String,
    pub thinking: String,
    pub timestamp: String,
    pub collapsed: bool,
}

pub ghost struct MessageView {
    pub role: MessageRole,
    pub content: Seq<char>,
}

impl View for Message {
    type V = MessageView;

    open spec fn view(&self) -> MessageView {
        MessageView { role: self.role, content: self.content@ }
    }
}

pub open spec fn messages_view(v: Seq<Message>) -> Seq<MessageView> {
    v.map_values(|m: Message| m@)
}

/// User and assistant messages take part in the dialogue; system notices
/// do not.
pub open spec fn in_dialogue(r: MessageRole) -> bool {
    r == MessageRole::User || r == MessageRole::Assistant
}

pub open spec fn role_label(r: MessageRole) -> Seq<char> {
    match r {
        MessageRole::User => "用户"@,
        MessageRole::Assistant => "助手"@,
        MessageRole::System => "系统"@,
    }
}

// ---------------------------------------------------------------------
// The prompt of the next task
// ---------------------------------------------------------------------

/// The dialogue messages from the newest back, leaving out the newest user
/// message that repeats the current input (it is the request itself).
pub open spec fn context_from_end(m: Seq<MessageView>, input: Seq<char>, skipped: bool) -> Seq<MessageView>
    decreases m.len(),
{
    if m.len() == 0 {
        Seq::empty()
    } else {
        let last = m.last();
        if !skipped && last.role == MessageRole::User && trim(last.content) == trim(input) {
            context_from_end(m.drop_last(), input, true)
        } else if in_dialogue(last.role) {
            seq![last] + context_from_end(m.drop_last(), input, skipped)
        } else {
            context_from_end(m.drop_last(), input, skipped)
        }
    }
}

pub open spec fn context_line(m: MessageView) -> Seq<char> {
    "["@ + role_label(m.role) + "] "@ + trim(m.content)
}

/// The last `max_items` dialogue messages before the current request, in
/// order, each as `[role] content`.
pub open spec fn recent_context(m: Seq<MessageView>, input: Seq<char>, max_items: nat) -> Seq<Seq<char>> {
    let newest = context_from_end(m, input, false);
    let kept = if newest.len() > max_items { newest.take(max_items as int) } else { newest };
    Seq::new(kept.len(), |i: int| context_line(kept[kept.len() - 1 - i]))
}

proof fn lemma_context_step(m: Seq<MessageView>, input: Seq<char>, skipped: bool, k: int)
    requires
        0 < k <= m.len(),
    ensures
        ({
            let last = m.take(k).last();
            let before = m.take(k - 1);
            context_from_end(m.take(k), input, skipped) == if !skipped && last.role == MessageRole::User
                && trim(last.content) == trim(input) {
                context_from_end(before, input, true)
            } else if in_dialogue(last.role) {
                seq![last] + context_from_end(before, input, skipped)
            } else {
                context_from_end(before, input, skipped)
            }
        }),
{
    assert(m.take(k).drop_last() =~= m.take(k - 1));
}

fn context_line_of(m: &Message) -> (r: String)
    ensures
        r@ == context_line(m@),
{
    let mut s = String::from_str("[");
    s.append(match m.role {
        MessageRole::User => "用户",
        MessageRole::Assistant => "助手",
        MessageRole::System => "系统",
    });
    s.append("] ");
    s.append(trim_str(m.content.as_str()).as_str());
    s
}

/// Executable `recent_context`.
pub fn recent_context_messages(messages: &Vec<Message>, current_input: &str, max_items: usize) -> (r: Vec<String>)
    ensures
        strings_view(r@) == recent_context(messages_view(messages@), current_input@, max_items as nat),
{
    let ghost all = messages_view(messages@);
    let input = trim_str(current_input);
    // Walk from the newest message back, collecting the newest first.
    let mut picked: Vec<usize> = Vec::new();
    let mut skipped = false;
    let mut k: usize = messages.len();
    let ghost target = context_from_end(all, current_input@, false);
    proof {
        assert(all.take(k as int) =~= all);
    }
    while k > 0 && picked.len() < max_items
        invariant
            k <= messages@.len(),
            all == messages_view(messages@),
            input@ == trim(current_input@),
            target == context_from_end(all, current_input@, false),
            picked@.len() <= max_items,
            forall|j: int| 0 <= j < picked@.len() ==> (#[trigger] picked@[j]) < messages@.len(),
            target == Seq::new(picked@.len() as nat, |j: int| all[picked@[j] as int]) + context_from_end(
                all.take(k as int),
                current_input@,
                skipped,
            ),
        decreases k,
    {
        let m = &messages[k - 1];
        proof {
            lemma_context_step(all, current_input@, skipped, k as int);
            assert(all.take(k as int).last() == m@);
        }
        let c = trim_str(m.content.as_str());
        let same = crate::text::chars_eq(to_chars(c.as_str()).as_slice(), to_chars(input.as_str()).as_slice());
        let ghost before_picked = picked@;
        if !skipped && m.role == MessageRole::User && same {
            skipped = true;
        } else if m.role == MessageRole::User || m.role == MessageRole::Assistant {
            picked.push(k - 1);
            proof {
                assert(Seq::new(picked@.len() as nat, |j: int| all[picked@[j] as int]) =~= Seq::new(
                    before_picked.len() as nat,
                    |j: int| all[before_picked[j] as int],
                ).push(m@));
            }
        }
        k = k - 1;
    }
    let ghost newest = Seq::new(picked@.len() as nat, |j: int| all[picked@[j] as int]);
    let ghost kept = if target.len() > max_items { target.take(max_items as int) } else { target };
    proof {
        if picked@.len() < max_items {
            assert(k == 0);
            assert(all.take(0) =~= Seq::<MessageView>::empty());
            assert(target =~= newest);
        } else {
            assert(target.take(max_items as int) =~= newest);
        }
        assert(kept =~= newest);
    }
    // Emit them oldest first.
    let mut out: Vec<String> = Vec::new();
    let n = picked.len();
    let mut i: usize = 0;
    let ghost lines = Seq::new(kept.len(), |i: int| context_line(kept[kept.len() - 1 - i]));
    assert(strings_view(out@) =~= lines.take(0));
    while i < n
        invariant
            i <= n,
            n == picked@.len(),
            newest == Seq::new(picked@.len() as nat, |j: int| all[picked@[j] as int]),
            kept == newest,
            lines == Seq::new(kept.len(), |i: int| context_line(kept[kept.len() - 1 - i])),
            all == messages_view(messages@),
            forall|j: int| 0 <= j < picked@.len() ==> (#[trigger] picked@[j]) < messages@.len(),
            strings_view(out@) == lines.take(i as int),
        decreases n - i,
    {
        let idx = picked[n - 1 - i];
        let line = context_line_of(&messages[idx]);
        let ghost prev = out@;
        out.push(line);
        proof {
            prev.lemma_push_map_commute(|s: String| s@, line);
            assert(all[idx as int] == messages@[idx as int]@);
            assert(lines.take(i + 1) =~= lines.take(i as int).push(lines[i as int]));
        }
        i = i + 1;
    }
    assert(lines.take(n as int) =~= lines);
    out
}

/// The prompt of the next task: the session summary (when there is one),
/// the last six dialogue messages (when there are any), and the request,
/// in sections separated by a rule.
pub open spec fn task_prompt(summary: Option<Seq<char>>, m: Seq<MessageView>, input: Seq<char>) -> Seq<char> {
    let s1: Seq<Seq<char>> = match summary {
        Some(s) => if trim(s).len() > 0 {
            seq!["以下是当前会话的历史摘要，请在后续任务中延续这些上下文与约束：\n"@ + trim(s)]
        } else {
            Seq::empty()
        },
        None => Seq::empty(),
    };
    let recent = recent_context(m, input, 6);
    let s2: Seq<Seq<char>> = if recent.len() > 0 {
        seq!["以下是最近对话，请结合这些内容继续处理：\n"@ + join(recent, "\n\n"@)]
    } else {
        Seq::empty()
    };
    join(s1 + s2 + seq!["当前用户请求：\n"@ + trim(input)], "\n\n---\n\n"@)
}

fn push_text(out: &mut Vec<String>, s: String)
    ensures
        strings_view(final(out)@) == strings_view(old(out)@).push(s@),
{
    let ghost prev = out@;
    out.push(s);
    proof {
        prev.lemma_push_map_commute(|x: String| x@, s);
    }
}

/// Executable `task_prompt`.
pub fn build_task_prompt(session_summary: Option<&str>, messages: &Vec<Message>, user_input: &str) -> (r: String)
    ensures
        r@ == task_prompt(crate::provider_runtime::opt_str_view(session_summary), messages_view(messages@), user_input@),
{
    let mut sections: Vec<String> = Vec::new();
    assert(strings_view(sections@) =~= Seq::<Seq<char>>::empty());
    if let Some(s) = session_summary {
        let t = trim_str(s);
        if t.as_str().unicode_len() > 0 {
            let mut x = String::from_str("以下是当前会话的历史摘要，请在后续任务中延续这些上下文与约束：\n");
            x.append(t.as_str());
            push_text(&mut sections, x);
        }
    }
    let ghost s1 = strings_view(sections@);
    let recent = recent_context_messages(messages, user_input, 6);
    if recent.len() > 0 {
        let mut x = String::from_str("以下是最近对话，请结合这些内容继续处理：\n");
        x.append(join_strings(&recent, "\n\n").as_str());
        push_text(&mut sections, x);
    }
    let mut last = String::from_str("当前用户请求：\n");
    last.append(trim_str(user_input).as_str());
    push_text(&mut sections, last);
    proof {
        let recent_v = recent_context(messages_view(messages@), user_input@, 6);
        let s2: Seq<Seq<char>> = if recent_v.len() > 0 {
            seq!["以下是最近对话，请结合这些内容继续处理：\n"@ + join(recent_v, "\n\n"@)]
        } else {
            Seq::empty()
        };
        assert(strings_view(sections@) =~= s1 + s2 + seq!["当前用户请求：\n"@ + trim(user_input@)]);
    }
    join_strings(&sections, "\n\n---\n\n")
}

// ---------------------------------------------------------------------
// Compressing a session
// ---------------------------------------------------------------------

/// The dialogue messages, in order.
pub open spec fn dialogue(m: Seq<MessageView>) -> Seq<MessageView>
    decreases m.len(),
{
    if m.len() == 0 {
        Seq::empty()
    } else if in_dialogue(m.last().role) {
        dialogue(m.drop_last()).push(m.last())
    } else {
        dialogue(m.drop_last())
    }
}

/// A message in the summary: its words joined by single blanks, cut to 220
/// characters.
pub open spec fn snippet(content: Seq<char>) -> Seq<char> {
    let compact = join(words(content), " "@);
    if compact.len() > 220 { compact.take(220) } else { compact }
}

pub open spec fn summary_line(m: MessageView) -> Seq<char> {
    "- "@ + role_label(m.role) + ": "@ + snippet(m.content)
}

/// The summary a session is compressed into: nothing while it has two
/// dialogue messages or fewer; otherwise the existing summary (when there
/// is one) and the first twelve dialogue messages.
pub open spec fn session_summary(existing: Option<Seq<char>>, m: Seq<MessageView>) -> Seq<char> {
    let d = dialogue(m);
    if d.len() <= 2 {
        Seq::empty()
    } else {
        let head: Seq<Seq<char>> = match existing {
            Some(e) => if trim(e).len() > 0 { seq!["已有摘要:"@, trim(e)] } else { Seq::empty() },
            None => Seq::empty(),
        };
        let first = if d.len() > 12 { d.take(12) } else { d };
        join(head + seq!["本轮对话摘要:"@] + Seq::new(first.len(), |i: int| summary_line(first[i])), "\n"@)
    }
}

fn dialogue_of(messages: &Vec<Message>) -> (r: Vec<usize>)
    ensures
        forall|j: int| 0 <= j < r@.len() ==> (#[trigger] r@[j]) < messages@.len(),
        Seq::new(r@.len() as nat, |j: int| messages_view(messages@)[r@[j] as int]) == dialogue(messages_view(messages@)),
{
    let ghost all = messages_view(messages@);
    let mut out: Vec<usize> = Vec::new();
    let mut i: usize = 0;
    assert(all.take(0) =~= Seq::<MessageView>::empty());
    while i < messages.len()
        invariant
            i <= messages@.len(),
            all == messages_view(messages@),
            forall|j: int| 0 <= j < out@.len() ==> (#[trigger] out@[j]) < messages@.len(),
            Seq::new(out@.len() as nat, |j: int| all[out@[j] as int]) == dialogue(all.take(i as int)),
        decreases messages@.len() - i,
    {
        assert(all.take(i + 1).drop_last() =~= all.take(i as int));
        assert(all.take(i + 1).last() == messages@[i as int]@);
        let ghost before = out@;
        if messages[i].role == MessageRole::User || messages[i].role == MessageRole::Assistant {
            out.push(i);
            assert(Seq::new(out@.len() as nat, |j: int| all[out@[j] as int]) =~= Seq::new(
                before.len() as nat,
                |j: int| all[before[j] as int],
            ).push(all[i as int]));
        }
        i = i + 1;
    }
    assert(all.take(all.len() as int) =~= all);
    out
}

fn snippet_of(content: &str) -> (r: String)
    ensures
        r@ == snippet(content@),
{
    let w = split_whitespace(content);
    let compact = join_strings(&w, " ");
    let c = to_chars(compact.as_str());
    if c.len() > 220 {
        let head = slice_chars(c.as_slice(), 0, 220);
        assert(head@ =~= c@.take(220));
        from_chars(head.as_slice())
    } else {
        compact
    }
}

/// Executable `session_summary`.
pub fn build_session_summary(existing: Option<&str>, messages: &Vec<Message>) -> (r: String)
    ensures
        r@ == session_summary(crate::provider_runtime::opt_str_view(existing), messages_view(messages@)),
{
    let ghost all = messages_view(messages@);
    let d = dialogue_of(messages);
    let ghost dv = dialogue(all);
    assert(dv.len() == d@.len());
    if d.len() <= 2 {
        return String::new();
    }
    let mut lines: Vec<String> = Vec::new();
    assert(strings_view(lines@) =~= Seq::<Seq<char>>::empty());
    if let Some(e) = existing {
        let t = trim_str(e);
        if t.as_str().unicode_len() > 0 {
            push_text(&mut lines, String::from_str("已有摘要:"));
            push_text(&mut lines, t);
        }
    }
    let ghost head = strings_view(lines@);
    push_text(&mut lines, String::from_str("本轮对话摘要:"));
    let n: usize = if d.len() > 12 { 12 } else { d.len() };
    let ghost first = if dv.len() > 12 { dv.take(12) } else { dv };
    let ghost body = Seq::new(first.len(), |i: int| summary_line(first[i]));
    let mut i: usize = 0;
    assert(strings_view(lines@) =~= head + seq!["本轮对话摘要:"@] + body.take(0));
    while i < n
        invariant
            i <= n,
            n <= d@.len(),
            n == first.len(),
            dv == dialogue(all),
            all == messages_view(messages@),
            forall|j: int| 0 <= j < d@.len() ==> (#[trigger] d@[j]) < messages@.len(),
            Seq::new(d@.len() as nat, |j: int| all[d@[j] as int]) == dv,
            first == (if dv.len() > 12 { dv.take(12) } else { dv }),
            body == Seq::new(first.len(), |i: int| summary_line(first[i])),
            strings_view(lines@) == head + seq!["本轮对话摘要:"@] + body.take(i as int),
        decreases n - i,
    {
        let m = &messages[d[i]];
        proof {
            assert(dv[i as int] == all[d@[i as int] as int]);
            assert(first[i as int] == dv[i as int]);
            assert(all[d@[i as int] as int] == m@);
        }
        let mut l = String::from_str("- ");
        l.append(match m.role {
            MessageRole::User => "用户",
            MessageRole::Assistant => "助手",
            MessageRole::System => "系统",
        });
        l.append(": ");
        l.append(snippet_of(m.content.as_str()).as_str());
        push_text(&mut lines, l);
        assert(body.take(i + 1) =~= body.take(i as int).push(body[i as int]));
        i = i + 1;
    }
    assert(body.take(n as int) =~= body);
    proof {
        let spec_head: Seq<Seq<char>> = match crate::provider_runtime::opt_str_view(existing) {
            Some(e) => if trim(e).len() > 0 { seq!["已有摘要:"@, trim(e)] } else { Seq::empty() },
            None => Seq::empty(),
        };
        assert(head =~= spec_head);
        assert(dv.len() == d@.len());
    }
    join_strings(&lines, "\n")
}

// ---------------------------------------------------------------------
// The title of a session
// ---------------------------------------------------------------------

/// The characters before the first line break.
pub open spec fn before_newline(s: Seq<char>) -> Seq<char>
    decreases s.len(),
{
    if s.len() == 0 || s[0] == '\n' {
        Seq::empty()
    } else {
        seq![s[0]] + before_newline(s.drop_first())
    }
}

/// `s.lines().next()`: the first line without its line break (and without a
/// `\r` before it); none for an empty text.
pub open spec fn first_line(s: Seq<char>) -> Option<Seq<char>> {
    if s.len() == 0 {
        None
    } else {
        let l = before_newline(s);
        Some(if l.len() > 0 && l.last() == '\r' { l.drop_last() } else { l })
    }
}

/// The index of the newest user message, if any.
pub open spec fn newest_user(m: Seq<MessageView>) -> Option<int>
    decreases m.len(),
{
    if m.len() == 0 {
        None
    } else if m.last().role == MessageRole::User {
        Some(m.len() - 1)
    } else {
        newest_user(m.drop_last())
    }
}

/// A session is named after the first line of its newest user message, cut
/// to 36 characters; `新会话` when there is none.
pub open spec fn session_title_text(m: Seq<MessageView>) -> Seq<char> {
    match newest_user(m) {
        Some(k) => {
            let line = match first_line(m[k].content) {
                Some(l) => l,
                None => "新会话"@,
            };
            if line.len() > 36 { line.take(36) } else { line }
        },
        None => "新会话"@,
    }
}

proof fn lemma_before_newline(s: Seq<char>, i: int)
    requires
        0 <= i <= s.len(),
        forall|j: int| 0 <= j < i ==> s[j] != '\n',
    ensures
        before_newline(s) == s.take(i) + before_newline(s.skip(i)),
    decreases i,
{
    if i > 0 {
        lemma_before_newline(s.drop_first(), i - 1);
        assert(s.drop_first().take(i - 1) =~= s.take(i).drop_first());
        assert(s.drop_first().skip(i - 1) =~= s.skip(i));
        assert(s.take(i) =~= seq![s[0]] + s.take(i).drop_first());
    } else {
        assert(s.skip(0) =~= s);
        assert(s.take(0) =~= Seq::<char>::empty());
    }
}

proof fn lemma_newest_user(m: Seq<MessageView>, k: int)
    requires
        0 <= k <= m.len(),
        forall|j: int| k <= j < m.len() ==> #[trigger] m[j].role != MessageRole::User,
    ensures
        newest_user(m) == newest_user(m.take(k)),
    decreases m.len() - k,
{
    if k < m.len() {
        assert(m.drop_last().take(k) =~= m.take(k));
        lemma_newest_user(m.drop_last(), k);
    } else {
        assert(m.take(k) =~= m);
    }
}

/// Executable `session_title_text`.
pub fn session_title(messages: &Vec<Message>) -> (r: String)
    ensures
        r@ == session_title_text(messages_view(messages@)),
{
    let ghost all = messages_view(messages@);
    let mut k: usize = messages.len();
    while k > 0 && messages[k - 1].role != MessageRole::User
        invariant
            k <= messages@.len(),
            all == messages_view(messages@),
            forall|j: int| k <= j < all.len() ==> #[trigger] all[j].role != MessageRole::User,
        decreases k,
    {
        assert(all[k - 1] == messages@[k - 1]@);
        k = k - 1;
    }
    proof {
        lemma_newest_user(all, k as int);
    }
    if k == 0 {
        assert(all.take(0) =~= Seq::<MessageView>::empty());
        return String::from_str("新会话");
    }
    proof {
        assert(all[k - 1] == messages@[k - 1]@);
        assert(all.take(k as int).last() == all[k - 1]);
        assert(newest_user(all.take(k as int)) == Some(k - 1));
    }
    let c = to_chars(messages[k - 1].content.as_str());
    let line: Vec<char> = if c.len() == 0 {
        to_chars("新会话")
    } else {
        let mut e: usize = 0;
        while e < c.len() && c[e] != '\n'
            invariant
                e <= c@.len(),
                forall|j: int| 0 <= j < e ==> c@[j] != '\n',
            decreases c@.len() - e,
        {
            e = e + 1;
        }
        proof {
            lemma_before_newline(c@, e as int);
            if e < c@.len() {
                assert(c@.skip(e as int)[0] == '\n');
            } else {
                assert(c@.skip(e as int).len() == 0);
            }
            assert(c@.take(e as int) + Seq::<char>::empty() =~= c@.take(e as int));
        }
        let end = if e > 0 && c[e - 1] == '\r' { e - 1 } else { e };
        let l = slice_chars(c.as_slice(), 0, end);
        proof {
            if e > 0 && c@[e - 1] == '\r' {
                assert(l@ =~= c@.take(e as int).drop_last());
            } else {
                assert(l@ =~= c@.take(e as int));
            }
        }
        l
    };
    if line.len() > 36 {
        let head = slice_chars(line.as_slice(), 0, 36);
        assert(head@ =~= line@.take(36));
        from_chars(head.as_slice())
    } else {
        from_chars(line.as_slice())
    }
}


// ---------------------------------------------------------------------
// Folding replies
// ---------------------------------------------------------------------

/// Whether each message is folded.
pub open spec fn folds(v: Seq<Message>) -> Seq<bool> {
    v.map_values(|m: Message| m.collapsed)
}

/// The fold states after folding (or unfolding) every assistant reply.
pub open spec fn folded_all(m: Seq<MessageView>, f: Seq<bool>, collapse: bool) -> Seq<bool> {
    Seq::new(f.len(), |i: int| if m[i].role == MessageRole::Assistant { collapse } else { f[i] })
}

/// How many assistant replies change fold state.
pub open spec fn fold_changes(m: Seq<MessageView>, f: Seq<bool>, collapse: bool) -> nat
    decreases f.len(),
{
    if f.len() == 0 {
        0
    } else {
        let k = f.len() - 1;
        fold_changes(m, f.drop_last(), collapse) + if m[k].role == MessageRole::Assistant && f[k] != collapse {
            1nat
        } else {
            0nat
        }
    }
}

/// Folds (`collapse`) or unfolds every assistant reply; returns how many
/// changed.
pub fn fold_all_assistant_messages(messages: &mut Vec<Message>, collapse: bool) -> (r: usize)
    ensures
        messages_view(final(messages)@) == messages_view(old(messages)@),
        folds(final(messages)@) == folded_all(messages_view(old(messages)@), folds(old(messages)@), collapse),
        r == fold_changes(messages_view(old(messages)@), folds(old(messages)@), collapse),
{
    let ghost mv = messages_view(messages@);
    let ghost f0 = folds(messages@);
    let ghost target = folded_all(mv, f0, collapse);
    let mut changed: usize = 0;
    let mut i: usize = 0;
    while i < messages.len()
        invariant
            i <= messages@.len(),
            mv.len() == messages@.len(),
            f0.len() == messages@.len(),
            messages_view(messages@) == mv,
            target == folded_all(mv, f0, collapse),
            forall|j: int| 0 <= j < i ==> #[trigger] folds(messages@)[j] == target[j],
            forall|j: int| i <= j < messages@.len() ==> #[trigger] folds(messages@)[j] == f0[j],
            changed == fold_changes(mv, f0.take(i as int), collapse),
            changed <= i,
        decreases messages@.len() - i,
    {
        proof {
            assert(f0.take(i + 1).drop_last() =~= f0.take(i as int));
            assert(f0.take(i + 1)[i as int] == f0[i as int]);
            assert(mv[i as int] == messages@[i as int]@);
            assert(folds(messages@)[i as int] == messages@[i as int].collapsed);
        }
        if messages[i].role == MessageRole::Assistant && messages[i].collapsed != collapse {
            let ghost before = messages@;
            let m = Message {
                role: messages[i].role,
                content: messages[i].content.clone(),
                thinking: messages[i].thinking.clone(),
                timestamp: messages[i].timestamp.clone(),
                collapsed: collapse,
            };
            messages.set(i, m);
            proof {
                assert(messages_view(messages@) =~= messages_view(before));
                assert forall|j: int| 0 <= j < messages@.len() implies #[trigger] folds(messages@)[j]
                    == (if j == i { collapse } else { folds(before)[j] }) by {}
            }
            changed = changed + 1;
        }
        i = i + 1;
    }
    assert(f0.take(i as int) =~= f0);
    assert(folds(messages@) =~= target);
    changed
}

/// Ctrl+S folds every assistant reply when one of them is unfolded, and
/// unfolds them all otherwise.
pub open spec fn fold_target(m: Seq<MessageView>, f: Seq<bool>) -> bool {
    exists|i: int| 0 <= i < f.len() && m[i].role == MessageRole::Assistant && !#[trigger] f[i]
}

/// Executable `fold_target`: whether Ctrl+S folds.
pub fn toggle_fold_target(messages: &Vec<Message>) -> (r: bool)
    ensures
        r == fold_target(messages_view(messages@), folds(messages@)),
{
    let ghost mv = messages_view(messages@);
    let ghost f = folds(messages@);
    let mut i: usize = 0;
    while i < messages.len()
        invariant
            i <= messages@.len(),
            mv == messages_view(messages@),
            f == folds(messages@),
            forall|j: int| 0 <= j < i ==> !(mv[j].role == MessageRole::Assistant && !#[trigger] f[j]),
        decreases messages@.len() - i,
    {
        assert(mv[i as int] == messages@[i as int]@);
        assert(f[i as int] == messages@[i as int].collapsed);
        if messages[i].role == MessageRole::Assistant && !messages[i].collapsed {
            return true;
        }
        i = i + 1;
    }
    false
}

/// The notice after folding all replies.
pub fn fold_notice(changed: usize) -> (r: String)
    ensures
        r@ == (if changed > 0 {
            "已更新 "@ + crate::text::decimal(changed as nat) + " 条助手回复的折叠状态。"@
        } else {
            "当前没有需要更新折叠状态的助手回复。"@
        }),
{
    if changed > 0 {
        let mut s = String::from_str("已更新 ");
        s.append(crate::text::u64_to_string(changed as u64).as_str());
        s.append(" 条助手回复的折叠状态。");
        s
    } else {
        String::from_str("当前没有需要更新折叠状态的助手回复。")
    }
}

/// After Ctrl+S every assistant reply has the same fold state.
pub proof fn law_toggle_folds_make_replies_agree(m: Seq<MessageView>, f: Seq<bool>, i: int, j: int)
    requires
        m.len() == f.len(),
        0 <= i < f.len(),
        0 <= j < f.len(),
        m[i].role == MessageRole::Assistant,
        m[j].role == MessageRole::Assistant,
    ensures
        folded_all(m, f, fold_target(m, f))[i] == folded_all(m, f, fold_target(m, f))[j],
{
}


// ---------------------------------------------------------------------
// Streamed replies
// ---------------------------------------------------------------------

/// Every field of a message.
pub ghost struct MessageFields {
    pub role: MessageRole,
    pub content: Seq<char>,
    pub thinking: Seq<char>,
    pub timestamp: Seq<char>,
    pub collapsed: bool,
}

pub open spec fn fields_of(m: Message) -> MessageFields {
    MessageFields {
        role: m.role,
        content: m.content@,
        thinking: m.thinking@,
        timestamp: m.timestamp@,
        collapsed: m.collapsed,
    }
}

pub open spec fn all_fields(v: Seq<Message>) -> Seq<MessageFields> {
    v.map_values(|m: Message| fields_of(m))
}

/// What a streamed piece of a reply is.
#[derive(Debug, Clone, Copy, PartialEq, Eq, Structural)]
pub enum StreamChunkKind {
    /// Reply text.
    Message,
    /// The model's thinking.
    Thinking,
}

/// A message with a streamed piece added: reply text goes after the
/// content; thinking goes after the thinking, which is then folded.
pub open spec fn with_piece(m: MessageFields, kind: StreamChunkKind, piece: Seq<char>) -> MessageFields {
    match kind {
        StreamChunkKind::Message => MessageFields { content: m.content + piece, ..m },
        StreamChunkKind::Thinking => MessageFields { thinking: m.thinking + piece, collapsed: true, ..m },
    }
}

/// The messages after a piece arrived for the reply placeholder at `index`
/// (none when the task has no placeholder): an empty piece, or one for a
/// missing placeholder, changes nothing.
pub open spec fn streamed(m: Seq<MessageFields>, index: Option<usize>, kind: StreamChunkKind, piece: Seq<char>) -> Seq<MessageFields> {
    match index {
        Some(i) => if piece.len() > 0 && i < m.len() { m.update(i as int, with_piece(m[i as int], kind, piece)) } else { m },
        None => m,
    }
}

/// Adds a streamed piece to a reply; returns whether reply text arrived
/// for a task that has a placeholder (the thinking indicator then goes
/// away).
pub fn apply_stream_chunk(messages: &mut Vec<Message>, index: Option<usize>, kind: StreamChunkKind, piece: &str) -> (r: bool)
    ensures
        all_fields(final(messages)@) == streamed(all_fields(old(messages)@), index, kind, piece@),
        r == (index is Some && piece@.len() > 0 && kind == StreamChunkKind::Message),
{
    let ghost before = all_fields(messages@);
    match index {
        None => false,
        Some(i) => {
            if piece.unicode_len() == 0 {
                return false;
            }
            if i < messages.len() {
                let old_m = &messages[i];
                let m = match kind {
                    StreamChunkKind::Message => {
                        let mut c = old_m.content.clone();
                        c.append(piece);
                        Message {
                            role: old_m.role,
                            content: c,
                            thinking: old_m.thinking.clone(),
                            timestamp: old_m.timestamp.clone(),
                            collapsed: old_m.collapsed,
                        }
                    },
                    StreamChunkKind::Thinking => {
                        let mut t = old_m.thinking.clone();
                        t.append(piece);
                        Message {
                            role: old_m.role,
                            content: old_m.content.clone(),
                            thinking: t,
                            timestamp: old_m.timestamp.clone(),
                            collapsed: true,
                        }
                    },
                };
                proof {
                    assert(before[i as int] == fields_of(messages@[i as int]));
                    assert(fields_of(m) == with_piece(before[i as int], kind, piece@));
                }
                messages.set(i, m);
                proof {
                    assert(all_fields(messages@) =~= before.update(i as int, fields_of(m)));
                }
            }
            kind == StreamChunkKind::Message
        },
    }
}

/// The messages after a task finished with `response`: its placeholder at
/// `index` takes the role, the text and the time of the reply (and is
/// unfolded when it has no thinking); without a placeholder the reply is
/// added at the end, unfolded and without thinking.
pub open spec fn settled(m: Seq<MessageFields>, index: Option<usize>, role: MessageRole, response: Seq<char>, timestamp: Seq<char>) -> Seq<MessageFields> {
    match index {
        Some(i) if i < m.len() => {
            let old = m[i as int];
            m.update(i as int, MessageFields {
                role,
                content: response,
                timestamp,
                collapsed: if old.thinking.len() == 0 { false } else { old.collapsed },
                ..old
            })
        },
        _ => m.push(MessageFields { role, content: response, thinking: Seq::empty(), timestamp, collapsed: false }),
    }
}

/// Executable `settled`.
pub fn settle_reply(messages: &mut Vec<Message>, index: Option<usize>, role: MessageRole, response: String, timestamp: String)
    ensures
        all_fields(final(messages)@) == settled(all_fields(old(messages)@), index, role, response@, timestamp@),
{
    let ghost before = all_fields(messages@);
    let placeholder = match index {
        Some(i) => if i < messages.len() { Some(i) } else { None },
        None => None,
    };
    match placeholder {
        Some(i) => {
            let old_m = &messages[i];
            let collapsed = if old_m.thinking.unicode_len() == 0 { false } else { old_m.collapsed };
            let m = Message {
                role,
                content: response,
                thinking: old_m.thinking.clone(),
                timestamp,
                collapsed,
            };
            proof {
                assert(before[i as int] == fields_of(messages@[i as int]));
            }
            messages.set(i, m);
            proof {
                assert(all_fields(messages@) =~= settled(before, index, role, m.content@, m.timestamp@));
            }
        },
        None => {
            let m = Message { role, content: response, thinking: String::new(), timestamp, collapsed: false };
            let ghost prev = messages@;
            messages.push(m);
            proof {
                prev.lemma_push_map_commute(|x: Message| fields_of(x), m);
                assert(all_fields(messages@) =~= settled(before, index, role, m.content@, m.timestamp@));
            }
        },
    }
}

/// Streaming a reply piece by piece and then settling it leaves the reply
/// with the final response as its text, whatever was streamed before.
pub proof fn law_settled_reply_has_the_response(
    m: Seq<MessageFields>,
    i: usize,
    pieces: Seq<Seq<char>>,
    role: MessageRole,
    response: Seq<char>,
    timestamp: Seq<char>,
)
    requires
        i < m.len(),
    ensures
        settled(stream_all(m, i, pieces), Some(i), role, response, timestamp)[i as int].content == response,
        settled(stream_all(m, i, pieces), Some(i), role, response, timestamp).len() == m.len(),
{
    lemma_stream_all_len(m, i, pieces);
}

/// Reply text streamed piece after piece.
pub open spec fn stream_all(m: Seq<MessageFields>, i: usize, pieces: Seq<Seq<char>>) -> Seq<MessageFields>
    decreases pieces.len(),
{
    if pieces.len() == 0 {
        m
    } else {
        streamed(stream_all(m, i, pieces.drop_last()), Some(i), StreamChunkKind::Message, pieces.last())
    }
}

proof fn lemma_stream_all_len(m: Seq<MessageFields>, i: usize, pieces: Seq<Seq<char>>)
    ensures
        stream_all(m, i, pieces).len() == m.len(),
    decreases pieces.len(),
{
    if pieces.len() > 0 {
        lemma_stream_all_len(m, i, pieces.drop_last());
    }
}

/// Streamed reply text adds up: after the pieces arrive, the reply's text
/// is what it was followed by all of them, in order.
pub proof fn law_streamed_pieces_concatenate(m: Seq<MessageFields>, i: usize, pieces: Seq<Seq<char>>)
    requires
        i < m.len(),
    ensures
        stream_all(m, i, pieces)[i as int].content == m[i as int].content + pieces.fold_left(Seq::<char>::empty(), |acc: Seq<char>, p: Seq<char>| acc + p),
    decreases pieces.len(),
{
    lemma_stream_all_len(m, i, pieces);
    if pieces.len() == 0 {
        assert(m[i as int].content + Seq::<char>::empty() =~= m[i as int].content);
    } else {
        let d = pieces.drop_last();
        law_streamed_pieces_concatenate(m, i, d);
        lemma_stream_all_len(m, i, d);
        let f = |acc: Seq<char>, p: Seq<char>| acc + p;
        assert(pieces.fold_left(Seq::<char>::empty(), f) == f(d.fold_left(Seq::<char>::empty(), f), pieces.last()));
        assert(stream_all(m, i, d)[i as int].content + pieces.last()
            =~= m[i as int].content + pieces.fold_left(Seq::<char>::empty(), f));
    }
}

/// Whether the reply is still awaited (the thinking indicator shows)
/// after a streamed piece: reply text for the running task ends the wait.
pub fn still_awaiting_reply(awaiting: bool, reply_text_arrived: bool, active_task: Option<u64>, task_id: u64) -> (r: bool)
    ensures
        r == (awaiting && !(reply_text_arrived && active_task == Some(task_id))),
{
    let running = match active_task {
        Some(a) => a == task_id,
        None => false,
    };
    awaiting && !(reply_text_arrived && running)
}

/// The thinking indicator shows while a task runs and its reply is awaited.
pub fn thinking_indicator_shown(processing: bool, awaiting: bool) -> (r: bool)
    ensures
        r == (processing && awaiting),
{
    processing && awaiting
}


// ---------------------------------------------------------------------
// The last reply
// ---------------------------------------------------------------------

/// The position of the last assistant reply, if there is one.
pub open spec fn last_reply_index(m: Seq<MessageView>) -> Option<int>
    decreases m.len(),
{
    if m.len() == 0 {
        None
    } else if m.last().role == MessageRole::Assistant {
        Some(m.len() - 1)
    } else {
        last_reply_index(m.drop_last())
    }
}

/// Executable `last_reply_index` (what `/copy last` copies and `/fold last`
/// folds).
pub fn last_assistant_index(messages: &Vec<Message>) -> (r: Option<usize>)
    ensures
        match r {
            Some(i) => last_reply_index(messages_view(messages@)) == Some(i as int),
            None => last_reply_index(messages_view(messages@)) is None,
        },
{
    let ghost mv = messages_view(messages@);
    let mut i: usize = messages.len();
    assert(mv.take(i as int) =~= mv);
    while i > 0
        invariant
            i <= messages@.len(),
            mv == messages_view(messages@),
            last_reply_index(mv) == last_reply_index(mv.take(i as int)),
        decreases i,
    {
        proof {
            assert(mv.take(i as int).last() == messages@[i - 1]@);
            assert(mv.take(i as int).drop_last() =~= mv.take(i - 1));
        }
        if messages[i - 1].role == MessageRole::Assistant {
            return Some(i - 1);
        }
        i = i - 1;
    }
    assert(mv.take(0) =~= Seq::<MessageView>::empty());
    None
}

/// Folds (`collapse`) or unfolds the message at `index`; returns whether
/// it changed.  A missing message changes nothing.
pub fn fold_message(messages: &mut Vec<Message>, index: usize, collapse: bool) -> (r: bool)
    ensures
        messages_view(final(messages)@) == messages_view(old(messages)@),
        r == (index < old(messages)@.len() && old(messages)@[index as int].collapsed != collapse),
        folds(final(messages)@) == (if index < old(messages)@.len() {
            folds(old(messages)@).update(index as int, collapse)
        } else {
            folds(old(messages)@)
        }),
{
    if index >= messages.len() || messages[index].collapsed == collapse {
        proof {
            if index < messages@.len() {
                assert(folds(messages@).update(index as int, collapse) =~= folds(messages@));
            }
        }
        return false;
    }
    let ghost before = messages@;
    let m = Message {
        role: messages[index].role,
        content: messages[index].content.clone(),
        thinking: messages[index].thinking.clone(),
        timestamp: messages[index].timestamp.clone(),
        collapsed: collapse,
    };
    messages.set(index, m);
    proof {
        assert(messages_view(messages@) =~= messages_view(before));
        assert(folds(messages@) =~= folds(before).update(index as int, collapse));
    }
    true
}

/// Folding a message the same way twice changes it only the first time.
pub proof fn law_folding_twice_is_folding_once(f: Seq<bool>, index: int, collapse: bool)
    requires
        0 <= index < f.len(),
    ensures
        f.update(index, collapse).update(index, collapse) == f.update(index, collapse),
        f.update(index, collapse)[index] == collapse,
{
    assert(f.update(index, collapse).update(index, collapse) =~= f.update(index, collapse));
}


// ---------------------------------------------------------------------
// Compressing the session
// ---------------------------------------------------------------------

/// What `/compress` does.
#[derive(Debug)]
pub enum CompressOutcome {
    /// Refused while a task runs.
    Busy,
    /// The session is too short to need it.
    NothingToCompress,
    /// The conversation is replaced by this notice, and the summary is kept.
    Compressed(String),
}

/// `/compress` with the summary the session would be compressed into.
pub fn compress_outcome(processing: bool, summary: &str) -> (r: CompressOutcome)
    ensures
        processing ==> r is Busy,
        !processing && summary@.len() == 0 ==> r is NothingToCompress,
        !processing && summary@.len() > 0 ==> (r matches CompressOutcome::Compressed(n)
            && n@ == "当前会话已压缩。后续任务会自动携带历史摘要。\n\n摘要预览:\n"@ + summary@),
{
    if processing {
        CompressOutcome::Busy
    } else if summary.unicode_len() == 0 {
        CompressOutcome::NothingToCompress
    } else {
        let mut s = String::from_str("当前会话已压缩。后续任务会自动携带历史摘要。\n\n摘要预览:\n");
        s.append(summary);
        CompressOutcome::Compressed(s)
    }
}

impl CompressOutcome {
    /// The message shown when nothing was compressed.
    pub fn refusal(&self) -> (r: Option<&'static str>)
        ensures
            match self {
                CompressOutcome::Busy => r is Some && r->0@ == "当前有任务正在执行，请等待完成后再压缩会话。"@,
                CompressOutcome::NothingToCompress => r is Some && r->0@ == "当前会话内容较少，暂时无需压缩。"@,
                CompressOutcome::Compressed(_) => r is None,
            },
    {
        match self {
            CompressOutcome::Busy => Some("当前有任务正在执行，请等待完成后再压缩会话。"),
            CompressOutcome::NothingToCompress => Some("当前会话内容较少，暂时无需压缩。"),
            CompressOutcome::Compressed(_) => None,
        }
    }
}

} // verus!
