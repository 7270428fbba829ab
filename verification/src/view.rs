//! What the screen shows, as text and styles, before it is drawn.

use vstd::prelude::*;

use crate::app::{
    plain_row_kind, preview_rows, preview_rows_upto, App, HeadingEntry, Mode, PreviewRow,
    PreviewRowKind, QuitAction,
};
use crate::diff::{DiffLine, DiffTag};
use crate::display::{capped, rows_between};
use crate::editor::buffer::{line_text_of, Buffer};
use crate::lines::{lemma_breaks_before_bounds, lemma_line_start, line_chars, line_count, line_start};
use crate::markdown::{lemma_list_item_trimmed, skip_char, skip_char_from};
use crate::strings::{
    chars_to_string, push_str, str_to_chars, to_owned_string, trim_chars,
    trim_spec, trim_start_chars, trim_start_spec,
};

verus! {

/// The mode whose view is drawn: the quit confirmation is drawn over the
/// view it was asked from.
pub fn effective_mode(app: &App) -> (m: Mode)
    ensures
        m == if app.mode == Mode::QuitConfirm {
            app.quit_return_mode
        } else {
            app.mode
        },
{
    match app.mode {
        Mode::QuitConfirm => app.quit_return_mode,
        mode => mode,
    }
}

/// The key hints shown at the bottom in each mode.
pub fn mode_hints(mode: Mode) -> (s: &'static str)
    ensures
        s@ == match mode {
            Mode::Edit => " Alt+D Diff | Alt+S Save | Alt+Z Undo | Alt+P Preview | Alt+O Outline | Alt+Q Quit"@,
            Mode::Preview => " Esc Back | \u{2191}\u{2193} Scroll"@,
            Mode::Outline => " \u{2191}\u{2193} Navigate | Enter Jump | Esc Back"@,
            Mode::Diff => " A Accept | R Reject | E Edit | Esc Later | \u{2191}\u{2193} Scroll"@,
            Mode::QuitConfirm => " \u{2190}\u{2192} Select | Enter Confirm | S/D/Esc Direct"@,
        },
{
    match mode {
        Mode::Edit => " Alt+D Diff | Alt+S Save | Alt+Z Undo | Alt+P Preview | Alt+O Outline | Alt+Q Quit",
        Mode::Preview => " Esc Back | \u{2191}\u{2193} Scroll",
        Mode::Outline => " \u{2191}\u{2193} Navigate | Enter Jump | Esc Back",
        Mode::Diff => " A Accept | R Reject | E Edit | Esc Later | \u{2191}\u{2193} Scroll",
        Mode::QuitConfirm => " \u{2190}\u{2192} Select | Enter Confirm | S/D/Esc Direct",
    }
}

pub open spec fn quit_label(action: QuitAction) -> Seq<char> {
    match action {
        QuitAction::Save => "[S] Save"@,
        QuitAction::Discard => "[D] Discard"@,
        QuitAction::Cancel => "[Esc] Cancel"@,
    }
}

/// The label of a quit action's button, padded by a space on each side
/// when it is the selected one.
pub fn quit_action_label(action: QuitAction, selected: QuitAction) -> (s: String)
    ensures
        s@ == if action == selected {
            " "@ + quit_label(action) + " "@
        } else {
            quit_label(action)
        },
{
    let label = match action {
        QuitAction::Save => "[S] Save",
        QuitAction::Discard => "[D] Discard",
        QuitAction::Cancel => "[Esc] Cancel",
    };
    if action == selected {
        let mut s = to_owned_string(" ");
        push_str(&mut s, label);
        push_str(&mut s, " ");
        s
    } else {
        to_owned_string(label)
    }
}

/// `n` copies of `s`, one after another.
pub open spec fn repeated(s: Seq<char>, n: nat) -> Seq<char>
    decreases n,
{
    if n == 0 {
        Seq::empty()
    } else {
        repeated(s, (n - 1) as nat) + s
    }
}

fn push_repeated(out: &mut String, s: &str, n: usize)
    ensures
        final(out)@ == old(out)@ + repeated(s@, n as nat),
{
    let mut i: usize = 0;
    while i < n
        invariant
            i <= n,
            out@ == old(out)@ + repeated(s@, i as nat),
        decreases n - i,
    {
        push_str(out, s);
        i += 1;
        assert(out@ =~= old(out)@ + repeated(s@, i as nat));
    }
}

/// An outline entry's line: a marker for the selected one, two spaces of
/// indent per level below the first, and the title.
pub fn outline_line_text(entry: &HeadingEntry, selected: bool) -> (s: String)
    ensures
        s@ == (if selected {
            "> "@
        } else {
            "  "@
        }) + repeated("  "@, if entry.level >= 1 { (entry.level - 1) as nat } else { 0 }) + entry.text@,
{
    let mut s = if selected {
        to_owned_string("> ")
    } else {
        to_owned_string("  ")
    };
    let depth = if entry.level >= 1 {
        entry.level - 1
    } else {
        0
    };
    push_repeated(&mut s, "  ", depth);
    push_str(&mut s, entry.text.as_str());
    s
}

/// A diff line as shown: a two-char marker for its kind, then its text.
pub fn diff_line_text(line: &DiffLine) -> (s: String)
    ensures
        s@ == match line.tag {
            DiffTag::Equal => "  "@,
            DiffTag::Insert => "+ "@,
            DiffTag::Delete => "- "@,
        } + line.text@,
{
    let mut s = match line.tag {
        DiffTag::Equal => to_owned_string("  "),
        DiffTag::Insert => to_owned_string("+ "),
        DiffTag::Delete => to_owned_string("- "),
    };
    push_str(&mut s, line.text.as_str());
    s
}

/// How many lines from the scroll offset the editor view prepares: three
/// screens, or one screen and fifty lines, whichever is more, within the text.
pub fn edit_fetch_end(total: usize, scroll: usize, height: usize) -> (end: usize)
    ensures
        end == if scroll + (if 3 * height >= height + 50 { 3 * height } else { height + 50 }) < total {
            scroll + (if 3 * height >= height + 50 { 3 * height } else { height + 50 })
        } else {
            total as int
        },
{
    let triple = if height <= usize::MAX / 3 {
        height * 3
    } else {
        usize::MAX
    };
    let plus = height.saturating_add(50);
    let extra = if triple >= plus {
        triple
    } else {
        plus
    };
    if extra < total && scroll < total - extra {
        scroll + extra
    } else {
        total
    }
}

/// Where the cursor lands among the rows of an editor `width` columns wide:
/// the wrapped rows of the lines above it from the scroll offset on, plus
/// its row within its own line; and its column within that row.
pub fn cursor_screen_position(buffer: &Buffer, width: usize) -> (pos: (usize, usize))
    ensures
        ({
            let col = capped(buffer.cursor_columns());
            let line = buffer.cursor_line_clamped();
            let above = if buffer.scroll_offset < line {
                rows_between(buffer.text(), buffer.scroll_offset as int, line, width as nat)
            } else {
                0
            };
            &&& pos.0 == capped(above + if width > 0 { col / width } else { 0 })
            &&& pos.1 == if width > 0 { col % width } else { col }
        }),
{
    let last = buffer.rope.len_lines() - 1;
    let line = if buffer.cursor.line < last {
        buffer.cursor.line
    } else {
        last
    };
    let mut above: usize = 0;
    let mut i = buffer.scroll_offset;
    let ghost start = buffer.scroll_offset as int;
    while i < line
        invariant
            start <= i,
            i <= line || i == start,
            line < line_count(buffer.text()),
            line as int == buffer.cursor_line_clamped(),
            start == buffer.scroll_offset,
            above == capped(rows_between(buffer.text(), start, i as int, width as nat)),
            rows_between(buffer.text(), start, i as int, width as nat) >= 0,
        decreases line - i,
    {
        let rows = buffer.visual_rows_for_line(i, width);
        proof {
            assert(rows_between(buffer.text(), start, i + 1, width as nat) == rows_between(
                buffer.text(),
                start,
                i as int,
                width as nat,
            ) + rows);
        }
        above = above.saturating_add(rows);
        i += 1;
    }
    let col = buffer.cursor_display_col();
    let (wrap_row, wrap_col) = if width > 0 {
        (col / width, col % width)
    } else {
        (0, col)
    };
    proof {
        if !(buffer.scroll_offset < line) {
            assert(rows_between(buffer.text(), start, start, width as nat) == 0);
        }
    }
    (above.saturating_add(wrap_row), wrap_col)
}

/// The first row a scrolled list shows: the scroll offset, but at most the
/// last row (0 for an empty list).
pub fn clamped_offset(scroll: usize, total: usize) -> (offset: usize)
    ensures
        offset == if total == 0 {
            0
        } else if scroll < total {
            scroll as int
        } else {
            total - 1
        },
{
    if total == 0 {
        0
    } else if scroll < total {
        scroll
    } else {
        total - 1
    }
}

/// The rows `start..end` of a list of `total` rows that a view `height`
/// rows high shows when scrolled to `scroll` (see `clamped_offset`).
pub fn visible_window(scroll: usize, total: usize, height: usize) -> (w: (usize, usize))
    ensures
        w.0 == if total == 0 {
            0
        } else if scroll < total {
            scroll as int
        } else {
            total - 1
        },
        w.1 == if w.0 + height < total {
            w.0 + height
        } else {
            total as int
        },
{
    let start = clamped_offset(scroll, total);
    let end = if height < total - start {
        start + height
    } else {
        total
    };
    (start, end)
}

/// How an outline entry is shown.
#[derive(Debug, Clone, Copy, PartialEq, Eq, Structural)]
pub enum OutlineStyle {
    Selected,
    Level1,
    Level2,
    Level3,
    Deeper,
}

/// The selected entry stands out; the others are shown by their level.
pub fn outline_style(level: usize, selected: bool) -> (style: OutlineStyle)
    ensures
        style == if selected {
            OutlineStyle::Selected
        } else if level == 1 {
            OutlineStyle::Level1
        } else if level == 2 {
            OutlineStyle::Level2
        } else if level == 3 {
            OutlineStyle::Level3
        } else {
            OutlineStyle::Deeper
        },
{
    if selected {
        OutlineStyle::Selected
    } else if level == 1 {
        OutlineStyle::Level1
    } else if level == 2 {
        OutlineStyle::Level2
    } else if level == 3 {
        OutlineStyle::Level3
    } else {
        OutlineStyle::Deeper
    }
}

/// How a piece of a preview row is shown.
#[derive(Debug, Clone, Copy, PartialEq, Eq, Structural)]
pub enum PreviewStyle {
    Fence,
    Code,
    Heading(usize),
    Quote,
    Rule,
    Plain,
    Bullet,
}

#[derive(Debug, Clone)]
pub struct PreviewSpan {
    pub text: String,
    pub style: PreviewStyle,
}

/// The bytes that `c` takes in UTF-8.
pub open spec fn utf8_len(c: char) -> nat {
    if (c as u32) < 0x80 {
        1
    } else if (c as u32) < 0x800 {
        2
    } else if (c as u32) < 0x10000 {
        3
    } else {
        4
    }
}

/// The UTF-8 bytes of the first `n` chars of `t`.
pub open spec fn utf8_len_upto(t: Seq<char>, n: nat) -> nat
    decreases n,
{
    if n == 0 || n > t.len() {
        0
    } else {
        utf8_len_upto(t, (n - 1) as nat) + utf8_len(t[n - 1])
    }
}

/// `t` without the `c` chars it starts with.
pub open spec fn strip_leading(t: Seq<char>, c: char) -> Seq<char> {
    t.subrange(skip_char(t, 0, c), t.len() as int)
}

/// A heading's or quote's text in the preview: the line trimmed, its
/// leading markers dropped, and trimmed again.
pub open spec fn marked_text(line: Seq<char>, marker: char) -> Seq<char> {
    trim_spec(strip_leading(trim_spec(line), marker))
}

/// A preview row that the buffer can show: rows of a line name one that
/// exists, and a list row's line starts, after its indent, with a bullet
/// (`-`, `*` or `+`) and a space.
pub open spec fn row_shown_from(s: Seq<char>, row: PreviewRow) -> bool {
    match row.kind {
        PreviewRowKind::FenceStart | PreviewRowKind::FenceEnd | PreviewRowKind::HorizontalRule
        | PreviewRowKind::Blank => true,
        _ => match row.source_line {
            Some(l) => {
                &&& l < line_count(s)
                &&& row.kind == PreviewRowKind::List ==> {
                    let t = trim_start_spec(line_text_of(s, l as nat));
                    t.len() >= 2 && (t[0] == '-' || t[0] == '*' || t[0] == '+') && t[1] == ' '
                }
            },
            None => false,
        },
    }
}

/// The pieces of a preview row as they are shown.
pub open spec fn preview_row_pieces(s: Seq<char>, row: PreviewRow) -> Seq<(PreviewStyle, Seq<char>)> {
    let raw = line_text_of(s, row.source_line.unwrap() as nat);
    match row.kind {
        PreviewRowKind::FenceStart => seq![(PreviewStyle::Fence, " \u{2500}\u{2500}\u{2500} code \u{2500}\u{2500}\u{2500}"@)],
        PreviewRowKind::FenceEnd => seq![(PreviewStyle::Fence, " \u{2500}\u{2500}\u{2500}\u{2500}\u{2500}\u{2500}\u{2500}\u{2500}\u{2500}\u{2500}\u{2500}\u{2500}"@)],
        PreviewRowKind::Code => seq![(PreviewStyle::Code, "  "@ + raw)],
        PreviewRowKind::Heading(level) => seq![
            (
                PreviewStyle::Heading(level),
                (if level == 1 {
                    "\u{2588} "@
                } else if level == 2 {
                    "\u{2590} "@
                } else if level == 3 {
                    "  \u{25b8} "@
                } else {
                    "    "@
                }) + marked_text(raw, '#'),
            ),
        ],
        PreviewRowKind::Blockquote => seq![(PreviewStyle::Quote, "  \u{2502} "@ + marked_text(raw, '>'))],
        PreviewRowKind::HorizontalRule => seq![(PreviewStyle::Rule, repeated("\u{2500}"@, 40))],
        PreviewRowKind::List => {
            let t = trim_start_spec(raw);
            let indent = capped(utf8_len_upto(raw, (raw.len() - t.len()) as nat) as int);
            seq![
                (PreviewStyle::Plain, repeated(" "@, indent as nat) + "  "@),
                (PreviewStyle::Bullet, "\u{2022} "@),
                (PreviewStyle::Plain, t.skip(2)),
            ]
        },
        PreviewRowKind::Plain => seq![(PreviewStyle::Plain, "  "@ + raw)],
        PreviewRowKind::Blank => seq![(PreviewStyle::Plain, Seq::<char>::empty())],
    }
}

pub open spec fn preview_views(spans: Seq<PreviewSpan>) -> Seq<(PreviewStyle, Seq<char>)> {
    spans.map_values(|p: PreviewSpan| (p.style, p.text@))
}

fn piece(text: String, style: PreviewStyle) -> (p: PreviewSpan)
    ensures
        p.text == text,
        p.style == style,
{
    PreviewSpan { text, style }
}

fn utf8_width(c: char) -> (n: usize)
    ensures
        n == utf8_len(c),
{
    let v = c as u32;
    if v < 0x80 {
        1
    } else if v < 0x800 {
        2
    } else if v < 0x10000 {
        3
    } else {
        4
    }
}

/// `t` without the `c` chars it starts with.
fn strip_leading_chars(t: &Vec<char>, c: char) -> (out: Vec<char>)
    ensures
        out@ == strip_leading(t@, c),
{
    let k = skip_char_from(t, 0, c);
    let mut out: Vec<char> = Vec::new();
    let mut i = k;
    while i < t.len()
        invariant
            k <= i <= t@.len(),
            out@ == t@.subrange(k as int, i as int),
        decreases t@.len() - i,
    {
        out.push(t[i]);
        i += 1;
        assert(out@ =~= t@.subrange(k as int, i as int));
    }
    out
}

fn marked_text_of(raw: &Vec<char>, marker: char) -> (out: Vec<char>)
    ensures
        out@ == marked_text(raw@, marker),
{
    let a = trim_chars(raw);
    let b = strip_leading_chars(&a, marker);
    trim_chars(&b)
}

fn prefixed(prefix: &str, rest: &Vec<char>) -> (s: String)
    ensures
        s@ == prefix@ + rest@,
{
    let mut s = to_owned_string(prefix);
    let r = chars_to_string(rest);
    push_str(&mut s, r.as_str());
    s
}

/// The pieces of a preview row as they are shown (see `preview_row_pieces`).
pub fn preview_row_spans(buffer: &Buffer, row: &PreviewRow) -> (spans: Vec<PreviewSpan>)
    requires
        row_shown_from(buffer.text(), *row),
    ensures
        preview_views(spans@) == preview_row_pieces(buffer.text(), *row),
{
    let mut spans: Vec<PreviewSpan> = Vec::new();
    match row.kind {
        PreviewRowKind::FenceStart => {
            spans.push(piece(to_owned_string(" \u{2500}\u{2500}\u{2500} code \u{2500}\u{2500}\u{2500}"), PreviewStyle::Fence));
        },
        PreviewRowKind::FenceEnd => {
            spans.push(piece(to_owned_string(" \u{2500}\u{2500}\u{2500}\u{2500}\u{2500}\u{2500}\u{2500}\u{2500}\u{2500}\u{2500}\u{2500}\u{2500}"), PreviewStyle::Fence));
        },
        PreviewRowKind::HorizontalRule => {
            let mut s = String::new();
            push_repeated(&mut s, "\u{2500}", 40);
            assert(s@ =~= repeated("\u{2500}"@, 40));
            spans.push(piece(s, PreviewStyle::Rule));
        },
        PreviewRowKind::Blank => {
            spans.push(piece(String::new(), PreviewStyle::Plain));
        },
        _ => {
            let line = match row.source_line {
                Some(l) => l,
                None => 0,
            };
            let raw_text = buffer.line_text(line);
            let raw = str_to_chars(raw_text.as_str());
            match row.kind {
                PreviewRowKind::Code => spans.push(piece(prefixed("  ", &raw), PreviewStyle::Code)),
                PreviewRowKind::Plain => spans.push(piece(prefixed("  ", &raw), PreviewStyle::Plain)),
                PreviewRowKind::Heading(level) => {
                    let text = marked_text_of(&raw, '#');
                    let prefix = if level == 1 {
                        "\u{2588} "
                    } else if level == 2 {
                        "\u{2590} "
                    } else if level == 3 {
                        "  \u{25b8} "
                    } else {
                        "    "
                    };
                    spans.push(piece(prefixed(prefix, &text), PreviewStyle::Heading(level)));
                },
                PreviewRowKind::Blockquote => {
                    let text = marked_text_of(&raw, '>');
                    spans.push(piece(prefixed("  \u{2502} ", &text), PreviewStyle::Quote));
                },
                _ => {
                    let trimmed = trim_start_chars(&raw);
                    proof {
                        crate::strings::lemma_skip_whitespace_bounds(raw@, 0);
                    }
                    let lead = raw.len() - trimmed.len();
                    let mut indent: usize = 0;
                    let mut i: usize = 0;
                    while i < lead
                        invariant
                            i <= lead <= raw@.len(),
                            indent == capped(utf8_len_upto(raw@, i as nat) as int),
                        decreases lead - i,
                    {
                        indent = indent.saturating_add(utf8_width(raw[i]));
                        i += 1;
                    }
                    let mut pad = String::new();
                    push_repeated(&mut pad, " ", indent);
                    push_str(&mut pad, "  ");
                    assert(pad@ =~= repeated(" "@, indent as nat) + "  "@);
                    spans.push(piece(pad, PreviewStyle::Plain));
                    spans.push(piece(to_owned_string("\u{2022} "), PreviewStyle::Bullet));
                    let mut rest: Vec<char> = Vec::new();
                    let mut j: usize = 2;
                    while j < trimmed.len()
                        invariant
                            2 <= j <= trimmed@.len() || (trimmed@.len() < 2 && j == 2),
                            rest@ == trimmed@.subrange(2, j as int),
                        decreases trimmed@.len() - j,
                    {
                        rest.push(trimmed[j]);
                        j += 1;
                        assert(rest@ =~= trimmed@.subrange(2, j as int));
                    }
                    spans.push(piece(chars_to_string(&rest), PreviewStyle::Plain));
                    assert(rest@ =~= trimmed@.skip(2));
                },
            }
        },
    }
    assert(preview_views(spans@) =~= preview_row_pieces(buffer.text(), *row));
    spans
}


/// A line's text holds no LF: only the last char of a line can be one, and
/// that one is left out.
proof fn lemma_line_text_shape(s: Seq<char>, l: nat)
    requires
        l < line_count(s),
    ensures
        line_chars(s, l) == line_text_of(s, l) || line_chars(s, l) == line_text_of(s, l).push('\n'),
        forall|j: int| 0 <= j < line_text_of(s, l).len() ==> line_text_of(s, l)[j] != '\n',
{
    lemma_line_start(s, l);
    let c = line_chars(s, l);
    let a = line_start(s, l);
    if c.len() > 0 && c[c.len() - 1] == '\n' {
        assert(c.drop_last().push('\n') =~= c);
    }
    assert forall|j: int| 0 <= j < line_text_of(s, l).len() implies line_text_of(s, l)[j] != '\n' by {
        assert(line_text_of(s, l)[j] == s[a + j]);
        if s[a + j] == '\n' {
            assert(crate::lines::is_break_end(s, a + j));
        }
    }
}

/// The rows built for the first `n` lines can all be shown.
proof fn lemma_preview_rows_upto_showable(s: Seq<char>, n: nat)
    requires
        n <= line_count(s),
        line_count(s) <= usize::MAX,
    ensures
        forall|i: int|
            0 <= i < preview_rows_upto(s, n).0.len() ==> row_shown_from(
                s,
                #[trigger] preview_rows_upto(s, n).0[i],
            ),
    decreases n,
{
    if n > 0 {
        let l = (n - 1) as nat;
        lemma_preview_rows_upto_showable(s, l);
        let line = line_chars(s, l);
        if !crate::markdown::is_code_fence_spec(line) && !preview_rows_upto(s, l).1
            && crate::markdown::heading_level_spec(line) is None && plain_row_kind(line)
            == PreviewRowKind::List {
            lemma_line_text_shape(s, l);
            lemma_list_item_trimmed(line, line_text_of(s, l));
        }
        let prev = preview_rows_upto(s, l).0;
        let rows = preview_rows_upto(s, n).0;
        assert forall|i: int| 0 <= i < rows.len() implies row_shown_from(s, #[trigger] rows[i]) by {
            if i < prev.len() {
                assert(rows[i] == prev[i]);
            }
        }
    }
}

/// Every row of the preview can be shown: a row of a line names a line of
/// the text, and a list row's line has its marker and space where the
/// preview cuts it.
pub proof fn law_preview_rows_are_showable(s: Seq<char>)
    requires
        s.len() < usize::MAX,
    ensures
        forall|i: int|
            0 <= i < preview_rows(s).len() ==> row_shown_from(s, #[trigger] preview_rows(s)[i]),
{
    lemma_breaks_before_bounds(s, 0, s.len() as int);
    lemma_preview_rows_upto_showable(s, line_count(s));
}

/// Whether the buffer can show a preview row (see `row_shown_from`).
pub fn row_is_showable(buffer: &Buffer, row: &PreviewRow) -> (b: bool)
    ensures
        b == row_shown_from(buffer.text(), *row),
{
    match row.kind {
        PreviewRowKind::FenceStart | PreviewRowKind::FenceEnd | PreviewRowKind::HorizontalRule
        | PreviewRowKind::Blank => true,
        _ => match row.source_line {
            Some(l) => {
                if l >= buffer.rope.len_lines() {
                    return false;
                }
                if row.kind == PreviewRowKind::List {
                    let raw_text = buffer.line_text(l);
                    let raw = str_to_chars(raw_text.as_str());
                    let t = trim_start_chars(&raw);
                    t.len() >= 2 && (t[0] == '-' || t[0] == '*' || t[0] == '+') && t[1] == ' '
                } else {
                    true
                }
            },
            None => false,
        },
    }
}

} // verus!
