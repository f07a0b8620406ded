//! The chat input box: which modes take typed text, and how text wraps into
//! lines of a given display width.

use vstd::prelude::*;

verus! {

/// What the input box is currently for.
#[derive(Debug, Clone, Copy, PartialEq, Eq, Structural)]
pub enum InputMode {
    Chat,
    LoginBaseUrl,
    LoginApiKey,
    ProviderSelect,
    ProviderRename,
    ModelSelect,
    ThemeSelect,
    ConnectSelect,
    ConnectApiKey,
    CommandLevel1,
    CommandLevel2,
    SkillsSelect,
    McpSelect,
    TasksSelect,
    CheckpointSelect,
    TaskInput,
    ModeSelect,
    SessionSelect,
    InputOptimizePreview,
    TodoConfirm,
    PendingQuestion,
    ConfigSelect,
    ConfigEnumSelect,
    ConfigNumberInput,
}

/// The modes in which typing edits the input text.
pub open spec fn editable(mode: InputMode) -> bool {
    match mode {
        InputMode::Chat | InputMode::ProviderRename | InputMode::LoginBaseUrl
        | InputMode::LoginApiKey | InputMode::ConnectApiKey | InputMode::TaskInput
        | InputMode::ConfigNumberInput | InputMode::PendingQuestion | InputMode::CommandLevel1
        | InputMode::CommandLevel2 => true,
        _ => false,
    }
}

/// Whether typing edits the input text in this mode.
pub fn is_editable_input_mode(input_mode: InputMode) -> (r: bool)
    ensures
        r == editable(input_mode),
{
    match input_mode {
        InputMode::Chat | InputMode::ProviderRename | InputMode::LoginBaseUrl
        | InputMode::LoginApiKey | InputMode::ConnectApiKey | InputMode::TaskInput
        | InputMode::ConfigNumberInput | InputMode::PendingQuestion | InputMode::CommandLevel1
        | InputMode::CommandLevel2 => true,
        _ => false,
    }
}

/// The cursor column kept inside a box of `width` columns (at least one).
pub fn clamp_cursor_col(cursor_col: usize, width: usize) -> (r: usize)
    ensures
        r == if width == 0 {
            0
        } else if cursor_col < width - 1 {
            cursor_col as int
        } else {
            width - 1
        },
{
    let w = if width == 0 { 1 } else { width };
    if cursor_col < w - 1 { cursor_col } else { w - 1 }
}

// ---------------------------------------------------------------------
// Wrapping
// ---------------------------------------------------------------------

/// What `UnicodeWidthChar::width` (unicode-width) gives for a character.
pub uninterp spec fn unicode_width_of(c: char) -> Option<usize>;

/// `UnicodeWidthChar::width(c)` from the unicode-width crate: the displayed
/// width in columns, `None` for control characters.  Stated here from its
/// source: characters below U+0020 and from U+007F below U+00A0 are control
/// characters, printable ASCII is one column, and the rest is looked up in a
/// table of one-byte widths (named, not written out).
#[verifier::external_body]
fn char_width(c: char) -> (r: Option<usize>)
    ensures
        r == unicode_width_of(c),
        (c as u32) < 0x20 ==> r is None,
        0x20 <= (c as u32) < 0x7F ==> r == Some(1usize),
        0x7F <= (c as u32) < 0xA0 ==> r is None,
        0xA0 <= (c as u32) ==> r is Some && r->0 <= 255,
{
    unicode_width::UnicodeWidthChar::width(c)
}

/// The columns a character takes in the input box: its display width, at
/// least one (control characters count as one).
pub open spec fn box_width(c: char) -> int {
    match unicode_width_of(c) {
        Some(w) => if w == 0 { 1 } else { w as int },
        None => 1,
    }
}

/// The wrapped lines, the width of the last one, and the cursor position
/// after laying out `text` in a box `width` columns wide (`width` 0 counts as
/// 1): a newline starts a new line, and a character that does not fit on the
/// current line starts one.
pub ghost struct Layout {
    pub lines: Seq<Seq<char>>,
    pub current_width: int,
    pub cursor_line: int,
    pub cursor_col: int,
}

pub open spec fn layout(text: Seq<char>, width: int) -> Layout
    decreases text.len(),
{
    if text.len() == 0 {
        Layout { lines: seq![Seq::empty()], current_width: 0, cursor_line: 0, cursor_col: 0 }
    } else {
        let prev = layout(text.drop_last(), width);
        let ch = text.last();
        if ch == '\n' {
            Layout {
                lines: prev.lines.push(Seq::empty()),
                current_width: 0,
                cursor_line: prev.lines.len() as int,
                cursor_col: 0,
            }
        } else {
            let w = box_width(ch);
            let lines = if prev.current_width + w > width { prev.lines.push(Seq::empty()) } else { prev.lines };
            let base = if prev.current_width + w > width { 0 } else { prev.current_width };
            let lines2 = lines.update(lines.len() - 1, lines.last().push(ch));
            Layout {
                lines: lines2,
                current_width: base + w,
                cursor_line: lines2.len() - 1,
                cursor_col: base + w,
            }
        }
    }
}

pub proof fn lemma_layout_shape(text: Seq<char>, width: int)
    requires
        width >= 1,
    ensures
        layout(text, width).lines.len() >= 1,
        0 <= layout(text, width).current_width,
        layout(text, width).cursor_col == layout(text, width).current_width || text.len() == 0 || text.last() == '\n',
        layout(text, width).cursor_line == layout(text, width).lines.len() - 1,
    decreases text.len(),
{
    if text.len() > 0 {
        lemma_layout_shape(text.drop_last(), width);
    }
}

/// Lays out `text` in a box `width` columns wide (0 counts as 1): the lines,
/// and the cursor's line and column after the last character.
pub fn layout_input_lines(text: &str, width: usize) -> (r: (Vec<String>, usize, usize))
    requires
        width <= usize::MAX - 256,
    ensures
        ({
            let l = layout(text@, if width == 0 { 1 } else { width as int });
            &&& crate::task_store::strings_view(r.0@) == l.lines
            &&& r.1 == l.cursor_line
            &&& r.2 == l.cursor_col
        }),
{
    let width = if width == 0 { 1 } else { width };
    let chars = crate::text::to_chars(text);
    let ghost all = chars@;
    let mut lines: Vec<Vec<char>> = Vec::new();
    lines.push(Vec::new());
    let mut current_width: usize = 0;
    let mut cursor_line: usize = 0;
    let mut cursor_col: usize = 0;
    let mut i: usize = 0;
    assert(all.take(0) =~= Seq::<char>::empty());
    assert(crate::text::views(lines@) =~= seq![Seq::<char>::empty()]);
    while i < chars.len()
        invariant
            i <= chars@.len(),
            all == chars@,
            all == text@,
            1 <= width <= usize::MAX - 256,
            ({
                let l = layout(all.take(i as int), width as int);
                &&& crate::text::views(lines@) == l.lines
                &&& current_width == l.current_width
                &&& cursor_line == l.cursor_line
                &&& cursor_col == l.cursor_col
            }),
            current_width <= (if width > 255 { width } else { 255 }),
            lines@.len() >= 1,
        decreases chars@.len() - i,
    {
        let ch = chars[i];
        proof {
            assert(all.take(i + 1).drop_last() =~= all.take(i as int));
            assert(all.take(i + 1).last() == ch);
        }
        let ghost prev = crate::text::views(lines@);
        if ch == '\n' {
            cursor_line = lines.len();
            cursor_col = 0;
            lines.push(Vec::new());
            current_width = 0;
            proof {
                assert(crate::text::views(lines@) =~= prev.push(Seq::<char>::empty()));
            }
        } else {
            let w: usize = match char_width(ch) {
                Some(x) => if x == 0 { 1 } else { x },
                None => 1,
            };
            assert(w == box_width(ch));
            if current_width + w > width {
                lines.push(Vec::new());
                current_width = 0;
                proof {
                    assert(crate::text::views(lines@) =~= prev.push(Seq::<char>::empty()));
                }
            }
            let ghost mid = crate::text::views(lines@);
            let idx = lines.len() - 1;
            let mut last = crate::text::slice_chars(&lines[idx], 0, lines[idx].len());
            assert(last@ =~= lines@[idx as int]@);
            last.push(ch);
            lines.set(idx, last);
            proof {
                assert(crate::text::views(lines@) =~= mid.update(mid.len() - 1, mid.last().push(ch)));
            }
            current_width = current_width + w;
            cursor_line = lines.len() - 1;
            cursor_col = current_width;
        }
        i = i + 1;
    }
    assert(all.take(all.len() as int) =~= all);
    let mut out: Vec<String> = Vec::new();
    let mut j: usize = 0;
    assert(crate::task_store::strings_view(out@) =~= crate::text::views(lines@).take(0));
    while j < lines.len()
        invariant
            j <= lines@.len(),
            crate::task_store::strings_view(out@) == crate::text::views(lines@).take(j as int),
        decreases lines@.len() - j,
    {
        let s = crate::text::from_chars(&lines[j]);
        let ghost prev = out@;
        out.push(s);
        proof {
            prev.lemma_push_map_commute(|x: String| x@, s);
            assert(crate::text::views(lines@).take(j + 1) =~= crate::text::views(lines@).take(j as int).push(lines@[j as int]@));
        }
        j = j + 1;
    }
    assert(crate::text::views(lines@).take(lines@.len() as int) =~= crate::text::views(lines@));
    (out, cursor_line, cursor_col)
}


// ---------------------------------------------------------------------
// Pasting
// ---------------------------------------------------------------------

/// The pick lists, where pasted text is dropped.
pub open spec fn is_pick_list(mode: InputMode) -> bool {
    match mode {
        InputMode::ProviderSelect | InputMode::ModelSelect | InputMode::ThemeSelect | InputMode::ConnectSelect
        | InputMode::SkillsSelect | InputMode::McpSelect | InputMode::CheckpointSelect | InputMode::ModeSelect
        | InputMode::SessionSelect | InputMode::ConfigSelect | InputMode::ConfigEnumSelect => true,
        _ => false,
    }
}

/// What pasting did.
#[derive(Debug, Clone, Copy, PartialEq, Eq, Structural)]
pub enum PasteEffect {
    /// Dropped: a pick list is open.
    Ignored,
    /// Added to the input.
    Appended,
    /// Added to the input; the command list is to be filtered again.
    RefilterCommands,
    /// Added to the input; the sub-command list is to be filtered again.
    RefilterSubCommands,
}

/// Pastes text at the end of the input, unless a pick list is open.
pub fn apply_paste(input: &mut String, mode: InputMode, content: &str) -> (r: PasteEffect)
    ensures
        is_pick_list(mode) ==> r == PasteEffect::Ignored && final(input)@ == old(input)@,
        !is_pick_list(mode) ==> final(input)@ == old(input)@ + content@ && r == (if mode == InputMode::CommandLevel1 {
            PasteEffect::RefilterCommands
        } else if mode == InputMode::CommandLevel2 {
            PasteEffect::RefilterSubCommands
        } else {
            PasteEffect::Appended
        }),
{
    let pick = match mode {
        InputMode::ProviderSelect | InputMode::ModelSelect | InputMode::ThemeSelect | InputMode::ConnectSelect
        | InputMode::SkillsSelect | InputMode::McpSelect | InputMode::CheckpointSelect | InputMode::ModeSelect
        | InputMode::SessionSelect | InputMode::ConfigSelect | InputMode::ConfigEnumSelect => true,
        _ => false,
    };
    if pick {
        PasteEffect::Ignored
    } else {
        input.append(content);
        if mode == InputMode::CommandLevel1 {
            PasteEffect::RefilterCommands
        } else if mode == InputMode::CommandLevel2 {
            PasteEffect::RefilterSubCommands
        } else {
            PasteEffect::Appended
        }
    }
}

/// The text pasted in place of a clipboard image saved at `path`.
pub fn pasted_image_snippet(path: &str) -> (r: String)
    ensures
        r@ == "我刚粘贴了一张图片，文件路径是 `"@ + path@
            + "`。如果需要读取图片内容，请调用 `media.read` 工具处理这个文件。当前模型支持图片时会自动执行 OCR 或描述，并在结果中标注来源，例如 provider 或 fallback。"@,
{
    let mut s = String::from_str("我刚粘贴了一张图片，文件路径是 `");
    s.append(path);
    s.append("`。如果需要读取图片内容，请调用 `media.read` 工具处理这个文件。当前模型支持图片时会自动执行 OCR 或描述，并在结果中标注来源，例如 provider 或 fallback。");
    s
}

/// The file name of a pasted image, after the time it was pasted.
pub fn pasted_image_file_name(stamp: &str) -> (r: String)
    ensures
        r@ == "paste-"@ + stamp@ + ".ppm"@,
{
    let mut s = String::from_str("paste-");
    s.append(stamp);
    s.append(".ppm");
    s
}

} // verus!
