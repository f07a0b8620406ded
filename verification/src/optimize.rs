//! Having the model rewrite the input line: the suggestion is previewed,
//! applied with Enter, and can be taken back with Ctrl+Z while the line is
//! untouched.

use vstd::prelude::*;
use crate::text::{trim, trim_str};

verus! {

/// A rewrite of the input line by a model.
#[derive(Debug)]
pub struct Rewrite {
    pub original: String,
    pub optimized: String,
    pub model_name: String,
}

pub ghost struct RewriteView {
    pub original: Seq<char>,
    pub optimized: Seq<char>,
    pub model_name: Seq<char>,
}

impl View for Rewrite {
    type V = RewriteView;

    open spec fn view(&self) -> RewriteView {
        RewriteView { original: self.original@, optimized: self.optimized@, model_name: self.model_name@ }
    }
}

/// The input line with its rewrites.
#[derive(Debug)]
pub struct InputRewriter {
    pub input: String,
    /// The suggestion being previewed.
    pub pending: Option<Rewrite>,
    /// The last rewrite applied, which Ctrl+Z takes back.
    pub last: Option<Rewrite>,
    /// The preview is shown.
    pub previewing: bool,
}

pub ghost struct RewriterView {
    pub input: Seq<char>,
    pub pending: Option<RewriteView>,
    pub last: Option<RewriteView>,
    pub previewing: bool,
}

pub open spec fn rewrite_opt(r: Option<Rewrite>) -> Option<RewriteView> {
    match r {
        Some(x) => Some(x@),
        None => None,
    }
}

impl View for InputRewriter {
    type V = RewriterView;

    open spec fn view(&self) -> RewriterView {
        RewriterView {
            input: self.input@,
            pending: rewrite_opt(self.pending),
            last: rewrite_opt(self.last),
            previewing: self.previewing,
        }
    }
}

/// The prompt that asks for a rewrite.
pub fn optimize_prompt(template: &str, input: &str) -> (r: String)
    ensures
        r@ == template@ + "\n\n"@ + input@,
{
    let mut s = String::from_str(template);
    s.append("\n\n");
    s.append(input);
    s
}

/// The state after a suggestion arrived: an empty one leaves the original
/// line; otherwise the trimmed suggestion is previewed.
pub open spec fn received(s: RewriterView, original: Seq<char>, optimized: Seq<char>, model: Seq<char>) -> RewriterView {
    if trim(optimized).len() == 0 {
        RewriterView { input: original, ..s }
    } else {
        RewriterView {
            pending: Some(RewriteView { original, optimized: trim(optimized), model_name: model }),
            previewing: true,
            ..s
        }
    }
}

/// The state after Enter on the preview: the suggestion becomes the line
/// and can be taken back.
pub open spec fn applied(s: RewriterView) -> RewriterView {
    match s.pending {
        None => RewriterView { previewing: false, ..s },
        Some(p) => RewriterView { input: p.optimized, pending: None, last: Some(p), previewing: false },
    }
}

/// The state after Ctrl+Z: the original line comes back if the line is
/// still the suggestion.
pub open spec fn undone(s: RewriterView) -> RewriterView {
    match s.last {
        Some(l) => if s.input == l.optimized {
            RewriterView { input: l.original, last: None, ..s }
        } else {
            s
        },
        None => s,
    }
}

impl InputRewriter {
    /// A suggestion arrived; returns the notice to show.
    pub fn receive(&mut self, original: String, optimized: &str, model_name: &str) -> (r: String)
        ensures
            final(self)@ == received(old(self)@, original@, optimized@, model_name@),
            r@ == (if trim(optimized@).len() == 0 {
                "输入优化未返回结果，保留原始内容。"@
            } else {
                model_name@ + " 已返回输入优化建议，按 Enter 应用，按 Esc 取消。"@
            }),
    {
        let t = trim_str(optimized);
        if t.as_str().unicode_len() == 0 {
            self.input = original;
            String::from_str("输入优化未返回结果，保留原始内容。")
        } else {
            self.pending = Some(Rewrite { original, optimized: t, model_name: String::from_str(model_name) });
            self.previewing = true;
            let mut s = String::from_str(model_name);
            s.append(" 已返回输入优化建议，按 Enter 应用，按 Esc 取消。");
            s
        }
    }

    /// Enter on the preview; returns the notice to show, if any.
    pub fn apply(&mut self) -> (r: Option<String>)
        ensures
            final(self)@ == applied(old(self)@),
            r is Some <==> old(self)@.pending is Some,
            old(self)@.pending matches Some(p) ==> r->0@ == "已使用 "@ + p.model_name + " 优化当前输入，Ctrl+Z 可撤回"@,
    {
        self.previewing = false;
        match self.pending.take() {
            None => None,
            Some(p) => {
                let mut s = String::from_str("已使用 ");
                s.append(p.model_name.as_str());
                s.append(" 优化当前输入，Ctrl+Z 可撤回");
                self.input = p.optimized.clone();
                self.last = Some(p);
                Some(s)
            },
        }
    }

    /// Esc on the preview: the suggestion is dropped.
    pub fn cancel(&mut self) -> (r: &'static str)
        ensures
            final(self)@ == (RewriterView { pending: None, previewing: false, ..old(self)@ }),
            r@ == "已取消本次输入优化预览。"@,
    {
        self.pending = None;
        self.previewing = false;
        "已取消本次输入优化预览。"
    }

    /// Ctrl+Z; returns the notice to show.
    pub fn undo(&mut self) -> (r: String)
        ensures
            final(self)@ == undone(old(self)@),
            r@ == match old(self)@.last {
                None => "当前没有可撤回的输入优化记录。"@,
                Some(l) => if old(self)@.input == l.optimized {
                    "已撤回 "@ + l.model_name + " 的输入优化"@
                } else {
                    "当前输入已变化，保留现有内容。请手动调整后继续。"@
                },
            },
    {
        match self.last.take() {
            None => String::from_str("当前没有可撤回的输入优化记录。"),
            Some(l) => {
                let same = crate::text::chars_eq(
                    crate::text::to_chars(self.input.as_str()).as_slice(),
                    crate::text::to_chars(l.optimized.as_str()).as_slice(),
                );
                if same {
                    let mut s = String::from_str("已撤回 ");
                    s.append(l.model_name.as_str());
                    s.append(" 的输入优化");
                    self.input = l.original;
                    s
                } else {
                    self.last = Some(l);
                    String::from_str("当前输入已变化，保留现有内容。请手动调整后继续。")
                }
            },
        }
    }
}

/// Applying a suggestion and taking it back at once gives the line the
/// suggestion was made for.
pub proof fn law_apply_then_undo_restores(s: RewriterView, original: Seq<char>, optimized: Seq<char>, model: Seq<char>)
    requires
        trim(optimized).len() > 0,
    ensures
        undone(applied(received(s, original, optimized, model))).input == original,
        undone(applied(received(s, original, optimized, model))).last is None,
{
}

} // verus!
