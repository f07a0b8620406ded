//! Scrolling: the message panel, which follows the newest line until the
//! user scrolls up, and the input box, when its text is taller than the box.

use vstd::prelude::*;

verus! {

// ---------------------------------------------------------------------
// The message panel
// ---------------------------------------------------------------------

/// The largest offset of the message panel: how far the rendered lines
/// (plus the thinking indicator line, when it shows) reach beyond one
/// screen of `height` lines (at least one).
pub open spec fn scroll_max_of(lines: nat, indicator: bool, height: nat) -> nat {
    let total = lines + (if indicator { 1nat } else { 0nat });
    let h = if height == 0 { 1nat } else { height };
    if total > h { (total - h) as nat } else { 0 }
}

/// Executable `scroll_max_of`.
pub fn message_scroll_max(lines: usize, indicator: bool, height: usize) -> (r: usize)
    requires
        lines < usize::MAX,
    ensures
        r == scroll_max_of(lines as nat, indicator, height as nat),
{
    let total = lines + if indicator { 1 } else { 0 };
    let h = if height == 0 { 1 } else { height };
    if total > h { total - h } else { 0 }
}

/// Where the message panel stands.
#[derive(Debug, Clone, Copy, PartialEq, Eq, Structural)]
pub struct MessageScroll {
    /// The first line shown.
    pub offset: usize,
    /// The panel sticks to the newest line.
    pub follow_bottom: bool,
}

/// One line up: a panel that followed the bottom first stops there.
pub open spec fn scrolled_up(s: MessageScroll, max: usize) -> MessageScroll {
    let from = if s.follow_bottom { max } else { s.offset };
    MessageScroll { offset: if from == 0 { 0 } else { (from - 1) as usize }, follow_bottom: false }
}

/// One line down: at the bottom the panel follows the bottom again.
pub open spec fn scrolled_down(s: MessageScroll, max: usize) -> MessageScroll {
    if s.offset < max {
        MessageScroll { offset: (s.offset + 1) as usize, follow_bottom: s.follow_bottom }
    } else {
        MessageScroll { offset: max, follow_bottom: true }
    }
}

/// `n` lines up or down.
pub open spec fn scrolled(s: MessageScroll, down: bool, n: nat, max: usize) -> MessageScroll
    decreases n,
{
    if n == 0 {
        s
    } else {
        let t = scrolled(s, down, (n - 1) as nat, max);
        if down { scrolled_down(t, max) } else { scrolled_up(t, max) }
    }
}

impl MessageScroll {
    /// A panel at the top that follows the bottom.
    pub fn new() -> (r: Self)
        ensures
            r == (MessageScroll { offset: 0, follow_bottom: true }),
    {
        MessageScroll { offset: 0, follow_bottom: true }
    }

    /// One line up.
    pub fn scroll_up(&mut self, max: usize)
        ensures
            *final(self) == scrolled_up(*old(self), max),
    {
        if self.follow_bottom {
            self.offset = max;
            self.follow_bottom = false;
        }
        self.offset = if self.offset == 0 { 0 } else { self.offset - 1 };
    }

    /// One line down.
    pub fn scroll_down(&mut self, max: usize)
        ensures
            *final(self) == scrolled_down(*old(self), max),
    {
        if self.offset < max {
            self.offset = self.offset + 1;
        } else {
            self.follow_bottom = true;
            self.offset = max;
        }
    }

    /// `n` lines up or down (five for Page Up / Page Down, three for a
    /// turn of the mouse wheel).
    pub fn scroll_lines(&mut self, down: bool, n: usize, max: usize)
        ensures
            *final(self) == scrolled(*old(self), down, n as nat, max),
    {
        let ghost start = *self;
        let mut i: usize = 0;
        while i < n
            invariant
                i <= n,
                *self == scrolled(start, down, i as nat, max),
            decreases n - i,
        {
            if down {
                self.scroll_down(max);
            } else {
                self.scroll_up(max);
            }
            i = i + 1;
        }
    }

    /// To the newest line, following it.
    pub fn scroll_to_bottom(&mut self, max: usize)
        ensures
            *final(self) == (MessageScroll { offset: max, follow_bottom: true }),
    {
        self.follow_bottom = true;
        self.offset = max;
    }

    /// After new text: a panel that follows the bottom moves to it; one
    /// the user scrolled stays where it is.
    pub fn pin_to_bottom_if_following(&mut self, max: usize)
        ensures
            *final(self) == (if old(self).follow_bottom {
                MessageScroll { offset: max, follow_bottom: true }
            } else {
                *old(self)
            }),
    {
        if self.follow_bottom {
            self.offset = max;
        }
    }
}

/// Scrolling one line up and one line down again gives back the position,
/// for a panel the user has scrolled (not following the bottom) that is
/// neither at the top nor beyond the bottom.
pub proof fn law_up_then_down_restores_position(s: MessageScroll, max: usize)
    requires
        !s.follow_bottom,
        0 < s.offset <= max,
    ensures
        scrolled_down(scrolled_up(s, max), max) == s,
{
}

/// Scrolling down far enough always ends at the bottom, following it.
pub proof fn law_scrolling_down_reaches_the_bottom(s: MessageScroll, max: usize, n: nat)
    requires
        s.offset <= max,
        n >= max - s.offset + 1,
    ensures
        scrolled(s, true, n, max) == (MessageScroll { offset: max, follow_bottom: true }),
    decreases n,
{
    lemma_scrolled_down_offset(s, n, max);
    if n > 0 {
        let t = scrolled(s, true, (n - 1) as nat, max);
        if n - 1 >= max - s.offset + 1 {
            law_scrolling_down_reaches_the_bottom(s, max, (n - 1) as nat);
        } else {
            lemma_scrolled_down_offset(s, (n - 1) as nat, max);
        }
    }
}

proof fn lemma_scrolled_down_offset(s: MessageScroll, n: nat, max: usize)
    requires
        s.offset <= max,
    ensures
        scrolled(s, true, n, max).offset == (if s.offset + n >= max { max as int } else { s.offset + n }),
        s.offset + n > max ==> scrolled(s, true, n, max).follow_bottom,
        s.offset + n <= max ==> scrolled(s, true, n, max).follow_bottom == s.follow_bottom,
    decreases n,
{
    if n > 0 {
        lemma_scrolled_down_offset(s, (n - 1) as nat, max);
    }
}

// ---------------------------------------------------------------------
// The input box
// ---------------------------------------------------------------------

/// The cursor is on the first line the input box shows (or above it).
pub open spec fn on_first_visible_line(cursor_line: nat, offset: nat) -> bool {
    cursor_line <= offset
}

/// The cursor's line is shown by the input box (`height` lines, at least
/// one) starting at `offset`, or lies above it: there is nothing further
/// down to bring into view.
pub open spec fn on_last_visible_line(cursor_line: nat, offset: nat, height: nat) -> bool {
    cursor_line < offset + (if height == 0 { 1nat } else { height })
}

/// What an arrow key in the input box does.
#[derive(Debug, Clone, Copy, PartialEq, Eq, Structural)]
pub enum ArrowOutcome {
    /// Browse the sent messages.
    History,
    /// Scroll the input box to this offset.
    Scrolled(usize),
}

/// Up: history on the first visible line, else the box scrolls up a line
/// (it stays at the top).
pub fn input_arrow_up(cursor_line: usize, offset: usize) -> (r: ArrowOutcome)
    ensures
        r == (if on_first_visible_line(cursor_line as nat, offset as nat) {
            ArrowOutcome::History
        } else {
            ArrowOutcome::Scrolled(if offset == 0 { 0 } else { (offset - 1) as usize })
        }),
{
    if cursor_line <= offset {
        ArrowOutcome::History
    } else {
        ArrowOutcome::Scrolled(if offset == 0 { 0 } else { offset - 1 })
    }
}

/// Down: history when the cursor's line is in view, else the box scrolls
/// down a line.
pub fn input_arrow_down(cursor_line: usize, offset: usize, height: usize) -> (r: ArrowOutcome)
    ensures
        r == (if on_last_visible_line(cursor_line as nat, offset as nat, height as nat) {
            ArrowOutcome::History
        } else {
            ArrowOutcome::Scrolled((offset + 1) as usize)
        }),
{
    let h = if height == 0 { 1 } else { height };
    if cursor_line < offset || cursor_line - offset < h {
        ArrowOutcome::History
    } else {
        ArrowOutcome::Scrolled(offset + 1)
    }
}

/// The input box scrolled by the mouse wheel: one line up or down, kept
/// between the top and the last screen of the text.
pub fn input_wheel(offset: usize, down: bool, line_count: usize, height: usize) -> (r: usize)
    ensures
        r == (if down {
            if offset + (if height == 0 { 1nat } else { height as nat }) < line_count { offset + 1 } else { offset as int }
        } else {
            if offset == 0 { 0 } else { offset - 1 }
        }),
{
    let h = if height == 0 { 1 } else { height };
    if down {
        if offset < line_count && line_count - offset > h { offset + 1 } else { offset }
    } else {
        if offset == 0 { 0 } else { offset - 1 }
    }
}

/// A screen rectangle.
#[derive(Debug, Clone, Copy, PartialEq, Eq, Structural)]
pub struct Area {
    pub x: u16,
    pub y: u16,
    pub width: u16,
    pub height: u16,
}

/// The point lies in the rectangle (its far edges clipped to the screen).
pub open spec fn in_area(column: u16, row: u16, a: Area) -> bool {
    let right = if a.x + a.width > u16::MAX { u16::MAX as int } else { a.x + a.width };
    let bottom = if a.y + a.height > u16::MAX { u16::MAX as int } else { a.y + a.height };
    column >= a.x && column < right && row >= a.y && row < bottom
}

/// Executable `in_area`.
pub fn point_in_area(column: u16, row: u16, a: Area) -> (r: bool)
    ensures
        r == in_area(column, row, a),
{
    column >= a.x && column < a.x.saturating_add(a.width) && row >= a.y && row < a.y.saturating_add(a.height)
}

/// What a turn of the mouse wheel scrolls.
#[derive(Debug, Clone, Copy, PartialEq, Eq, Structural)]
pub enum WheelTarget {
    /// The input box, when the pointer is over it and it can be edited.
    Input,
    /// The message panel, when the pointer is over it.
    Messages,
    Nothing,
}

/// The part under the pointer that the wheel scrolls.
pub fn wheel_target(column: u16, row: u16, messages: Area, input: Area, input_editable: bool) -> (r: WheelTarget)
    ensures
        r == (if input_editable && in_area(column, row, input) {
            WheelTarget::Input
        } else if in_area(column, row, messages) {
            WheelTarget::Messages
        } else {
            WheelTarget::Nothing
        }),
{
    if input_editable && point_in_area(column, row, input) {
        WheelTarget::Input
    } else if point_in_area(column, row, messages) {
        WheelTarget::Messages
    } else {
        WheelTarget::Nothing
    }
}

} // verus!
