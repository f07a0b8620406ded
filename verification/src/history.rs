//! Browsing the messages sent before with the arrow keys: the line being
//! typed is kept aside as a draft and comes back when browsing ends.

use vstd::prelude::*;
use crate::task_store::strings_view;
use crate::text::{trim, trim_str};

verus! {

/// The sent messages and where browsing stands.
#[derive(Debug)]
pub struct InputHistory {
    /// The messages sent, oldest first.
    pub sent: Vec<String>,
    /// The message shown, while browsing.
    pub index: Option<usize>,
    /// The line that was being typed when browsing started.
    pub draft: String,
    /// The input line.
    pub input: String,
}

pub ghost struct HistoryView {
    pub sent: Seq<Seq<char>>,
    pub index: Option<int>,
    pub draft: Seq<char>,
    pub input: Seq<char>,
}

impl View for InputHistory {
    type V = HistoryView;

    open spec fn view(&self) -> HistoryView {
        HistoryView {
            sent: strings_view(self.sent@),
            index: match self.index {
                Some(i) => Some(i as int),
                None => None,
            },
            draft: self.draft@,
            input: self.input@,
        }
    }
}

/// While browsing, the shown message exists.
pub open spec fn history_wf(h: HistoryView) -> bool {
    h.index matches Some(i) ==> 0 <= i < h.sent.len()
}

/// One message back: browsing starts at the newest message (keeping the
/// line being typed), and stops at the oldest.
pub open spec fn went_up(h: HistoryView) -> HistoryView {
    if h.sent.len() == 0 {
        h
    } else {
        let (i, draft) = match h.index {
            None => (h.sent.len() - 1, h.input),
            Some(k) => (if k == 0 { 0 } else { k - 1 }, h.draft),
        };
        HistoryView { index: Some(i), draft, input: h.sent[i], ..h }
    }
}

/// One message forward: past the newest, browsing ends and the draft comes
/// back.
pub open spec fn went_down(h: HistoryView) -> HistoryView {
    match h.index {
        None => h,
        Some(k) => if k + 1 < h.sent.len() {
            HistoryView { index: Some(k + 1), input: h.sent[k + 1], ..h }
        } else {
            HistoryView { index: None, input: h.draft, draft: Seq::empty(), ..h }
        },
    }
}

impl InputHistory {
    pub open spec fn wf(&self) -> bool {
        history_wf(self@)
    }

    /// Up.
    pub fn navigate_up(&mut self)
        requires
            old(self).wf(),
        ensures
            final(self).wf(),
            final(self)@ == went_up(old(self)@),
    {
        if self.sent.len() == 0 {
            return;
        }
        let i = match self.index {
            None => {
                self.draft = self.input.clone();
                self.sent.len() - 1
            },
            Some(k) => if k == 0 { 0 } else { k - 1 },
        };
        self.index = Some(i);
        self.input = self.sent[i].clone();
    }

    /// Down.
    pub fn navigate_down(&mut self)
        requires
            old(self).wf(),
        ensures
            final(self).wf(),
            final(self)@ == went_down(old(self)@),
    {
        match self.index {
            None => {},
            Some(k) => {
                if k < self.sent.len() && k + 1 < self.sent.len() {
                    self.index = Some(k + 1);
                    self.input = self.sent[k + 1].clone();
                } else {
                    self.index = None;
                    self.input = self.draft.clone();
                    self.draft = String::new();
                }
            },
        }
    }
}

/// After a message is sent: it joins the history (trimmed, unless blank),
/// browsing ends and the draft is dropped; the input line itself is left to
/// the caller.
pub open spec fn after_sending(h: HistoryView, line: Seq<char>) -> HistoryView {
    HistoryView {
        sent: if trim(line).len() > 0 { h.sent.push(trim(line)) } else { h.sent },
        index: None,
        draft: Seq::empty(),
        ..h
    }
}

impl InputHistory {
    /// Records a sent message.
    pub fn record_sent(&mut self, line: &str)
        requires
            old(self).wf(),
        ensures
            final(self).wf(),
            final(self)@ == after_sending(old(self)@, line@),
    {
        let t = trim_str(line);
        if t.as_str().unicode_len() > 0 {
            let ghost prev = self.sent@;
            self.sent.push(t);
            proof {
                prev.lemma_push_map_commute(|x: String| x@, t);
            }
        }
        self.index = None;
        self.draft = String::new();
    }
}

/// The first step back after sending a message shows that message.
pub proof fn law_up_after_sending_shows_it(h: HistoryView, line: Seq<char>)
    requires
        trim(line).len() > 0,
    ensures
        went_up(after_sending(h, line)).input == trim(line),
        went_up(after_sending(h, line)).index == Some(h.sent.len() as int),
{
}

/// Starting to browse and stepping straight back gives the line being typed
/// back, and browsing has ended.
pub proof fn law_up_then_down_restores_the_line(h: HistoryView)
    requires
        history_wf(h),
        h.index is None,
    ensures
        went_down(went_up(h)).input == h.input,
        went_down(went_up(h)).index is None,
{
}

/// One step back and one forward returns to the message shown, unless the
/// oldest one was shown.
pub proof fn law_up_then_down_returns(h: HistoryView, k: int)
    requires
        history_wf(h),
        h.index == Some(k),
        k > 0,
    ensures
        went_down(went_up(h)).index == Some(k),
        went_down(went_up(h)).input == h.sent[k],
{
}

} // verus!
