//! The editor's state: the buffer, the current mode, the review of external
//! changes, the quit confirmation, the outline and the Markdown preview.

use vstd::prelude::*;
use ropey::Rope;

use crate::diff::{compute_diff, line_diff, without_final_newline, DiffLine};
use crate::editor::buffer::{section_at, Buffer};
use crate::editor::cursor::clamped_col;
use crate::lines::{last_line, line_chars, line_count};
use crate::markdown::{
    heading_level, heading_level_spec, heading_of, is_blank, is_blank_spec, is_blockquote,
    is_blockquote_spec, is_code_fence, is_code_fence_spec, is_horizontal_rule,
    is_horizontal_rule_spec, is_list_item, is_list_item_spec,
};
use crate::ropes::{rope_eq_str, rope_line, rope_to_string};
use crate::strings::{decimal, push_str, usize_to_decimal};

verus! {

#[derive(Debug, Clone, Copy, PartialEq, Eq, Structural)]
pub enum Mode {
    Edit,
    Preview,
    Outline,
    Diff,
    QuitConfirm,
}

#[derive(Debug, Clone, Copy, PartialEq, Eq, Structural)]
pub enum QuitAction {
    Save,
    Discard,
    Cancel,
}

#[derive(Debug, Clone)]
pub struct HeadingEntry {
    pub level: usize,
    pub text: String,
    pub line: usize,
}

#[derive(Debug, Clone, Copy, PartialEq, Eq, Structural)]
pub enum PreviewRowKind {
    FenceStart,
    FenceEnd,
    Code,
    Heading(usize),
    Blockquote,
    HorizontalRule,
    List,
    Plain,
    Blank,
}

#[derive(Debug, Clone, Copy, PartialEq, Eq, Structural)]
pub struct PreviewRow {
    pub source_line: Option<usize>,
    pub kind: PreviewRowKind,
}

struct PreviewCache {
    revision: u64,
    rows: Vec<PreviewRow>,
}

struct SectionCache {
    revision: u64,
    cursor_line: usize,
    value: Option<String>,
}

/// What was last computed for the preview and the status line, with the
/// buffer revision it was computed for.
pub struct ViewCaches {
    preview: Option<PreviewCache>,
    section: Option<SectionCache>,
}

impl ViewCaches {
    pub fn new() -> (c: Self)
        ensures
            c.preview_entry() is None,
            c.section_entry() is None,
    {
        ViewCaches { preview: None, section: None }
    }

    /// The cached preview rows and the revision they were built for.
    pub closed spec fn preview_entry(self) -> Option<(u64, Seq<PreviewRow>)> {
        match self.preview {
            Some(c) => Some((c.revision, c.rows@)),
            None => None,
        }
    }

    /// The cached section title with the revision and cursor line it was
    /// found for.
    pub closed spec fn section_entry(self) -> Option<(u64, usize, Option<Seq<char>>)> {
        match self.section {
            Some(c) => Some(
                (
                    c.revision,
                    c.cursor_line,
                    match c.value {
                        Some(v) => Some(v@),
                        None => None,
                    },
                ),
            ),
            None => None,
        }
    }
}

/// The preview row of a line that is neither in a code block, nor a fence,
/// nor a heading.
pub open spec fn plain_row_kind(line: Seq<char>) -> PreviewRowKind {
    if is_blockquote_spec(line) {
        PreviewRowKind::Blockquote
    } else if is_horizontal_rule_spec(line) {
        PreviewRowKind::HorizontalRule
    } else if is_list_item_spec(line) {
        PreviewRowKind::List
    } else if is_blank_spec(line) {
        PreviewRowKind::Blank
    } else {
        PreviewRowKind::Plain
    }
}

/// The preview rows of the first `n` lines of `s`, and whether line `n`
/// starts inside a code block.
pub open spec fn preview_rows_upto(s: Seq<char>, n: nat) -> (Seq<PreviewRow>, bool)
    decreases n,
{
    if n == 0 {
        (Seq::<PreviewRow>::empty(), false)
    } else {
        let prev = preview_rows_upto(s, (n - 1) as nat);
        let rows = prev.0;
        let in_code = prev.1;
        let l = (n - 1) as nat;
        let line = line_chars(s, l);
        if is_code_fence_spec(line) {
            let kind = if !in_code {
                PreviewRowKind::FenceStart
            } else {
                PreviewRowKind::FenceEnd
            };
            (rows.push(PreviewRow { source_line: None, kind }), !in_code)
        } else if in_code {
            (rows.push(PreviewRow { source_line: Some(l as usize), kind: PreviewRowKind::Code }), true)
        } else {
            match heading_level_spec(line) {
                Some(level) => {
                    let with_heading = rows.push(
                        PreviewRow {
                            source_line: Some(l as usize),
                            kind: PreviewRowKind::Heading(level as usize),
                        },
                    );
                    if level <= 2 {
                        (with_heading.push(PreviewRow { source_line: None, kind: PreviewRowKind::Blank }), false)
                    } else {
                        (with_heading, false)
                    }
                },
                None => (rows.push(PreviewRow { source_line: Some(l as usize), kind: plain_row_kind(line) }), false),
            }
        }
    }
}

/// The preview rows of the whole text.
pub open spec fn preview_rows(s: Seq<char>) -> Seq<PreviewRow> {
    preview_rows_upto(s, line_count(s)).0
}

/// The headings among the first `n` lines of `s`: level, title, line.
pub open spec fn outline_upto(s: Seq<char>, n: nat) -> Seq<(nat, Seq<char>, nat)>
    decreases n,
{
    if n == 0 {
        Seq::empty()
    } else {
        let prev = outline_upto(s, (n - 1) as nat);
        match heading_of(line_chars(s, (n - 1) as nat)) {
            Some((level, title)) => prev.push((level, title, (n - 1) as nat)),
            None => prev,
        }
    }
}

/// The headings of the whole text.
pub open spec fn outline_of(s: Seq<char>) -> Seq<(nat, Seq<char>, nat)> {
    outline_upto(s, line_count(s))
}

pub open spec fn mode_label(m: Mode) -> Seq<char> {
    match m {
        Mode::Edit => "EDIT"@,
        Mode::Preview => "PREVIEW"@,
        Mode::Outline => "OUTLINE"@,
        Mode::Diff => "DIFF"@,
        Mode::QuitConfirm => "QUIT"@,
    }
}

/// The status line: file name, markers for unsaved and external changes,
/// mode, line number, and the current section if there is one.
pub open spec fn status_text(
    name: Seq<char>,
    dirty: bool,
    external: bool,
    mode: Mode,
    line_number: nat,
    section: Option<Seq<char>>,
) -> Seq<char> {
    name + (if dirty {
        " *"@
    } else {
        Seq::<char>::empty()
    }) + (if external {
        " \u{26a1}"@
    } else {
        Seq::<char>::empty()
    }) + " | "@ + mode_label(mode) + " | Ln "@ + decimal(line_number) + match section {
        Some(t) => " | Section: "@ + t,
        None => Seq::<char>::empty(),
    }
}

pub open spec fn next_quit_action(a: QuitAction) -> QuitAction {
    match a {
        QuitAction::Save => QuitAction::Discard,
        QuitAction::Discard => QuitAction::Cancel,
        QuitAction::Cancel => QuitAction::Save,
    }
}

pub open spec fn prev_quit_action(a: QuitAction) -> QuitAction {
    match a {
        QuitAction::Save => QuitAction::Cancel,
        QuitAction::Discard => QuitAction::Save,
        QuitAction::Cancel => QuitAction::Discard,
    }
}

pub struct App {
    pub buffer: Buffer,
    pub mode: Mode,
    pub should_quit: bool,
    pub message: Option<String>,
    pub preview_scroll: usize,
    pub outline_entries: Vec<HeadingEntry>,
    pub outline_selected: usize,
    pub external_change: bool,
    pub external_content: Option<String>,
    pub diff_lines: Vec<DiffLine>,
    pub diff_scroll: usize,
    pub quit_return_mode: Mode,
    pub quit_selected: QuitAction,
    pub caches: ViewCaches,
}

impl App {
    /// The buffer's text.
    pub open spec fn text(self) -> Seq<char> {
        self.buffer.text()
    }

    /// The cursor's line, at most the last line.
    pub open spec fn cursor_line_shown(self) -> usize {
        self.buffer.cursor_line_clamped() as usize
    }

    /// Whether the cached section title was found for the current revision
    /// and cursor line.
    pub open spec fn section_cache_fresh(self) -> bool {
        match self.caches.section_entry() {
            Some((rev, line, _)) => rev == self.buffer.revision() && line == self.cursor_line_shown(),
            None => false,
        }
    }

    /// Whether the cached preview rows were built for the current revision.
    pub open spec fn preview_cache_fresh(self) -> bool {
        match self.caches.preview_entry() {
            Some((rev, _)) => rev == self.buffer.revision(),
            None => false,
        }
    }

    /// The section title that the status line shows: the cached one when it
    /// is fresh, else the one found in the text.
    pub open spec fn section_shown(self) -> Option<Seq<char>> {
        if self.section_cache_fresh() {
            self.caches.section_entry().unwrap().2
        } else {
            section_at(self.text(), self.cursor_line_shown() as int)
        }
    }

    /// The preview rows that are shown: the cached ones when they are fresh,
    /// else the ones built from the text.
    pub open spec fn preview_shown(self) -> Seq<PreviewRow> {
        if self.preview_cache_fresh() {
            self.caches.preview_entry().unwrap().1
        } else {
            preview_rows(self.text())
        }
    }

    /// Every cache entry that claims the current revision holds what the
    /// text gives.
    pub open spec fn caches_coherent(self) -> bool {
        &&& match self.caches.section_entry() {
            Some((rev, line, value)) => rev == self.buffer.revision() ==> value == section_at(
                self.text(),
                line as int,
            ),
            None => true,
        }
        &&& match self.caches.preview_entry() {
            Some((rev, rows)) => rev == self.buffer.revision() ==> rows == preview_rows(self.text()),
            None => true,
        }
    }

    /// The review state: no external change pending, back to editing.
    pub open spec fn review_closed(self) -> bool {
        &&& !self.external_change
        &&& self.diff_lines@.len() == 0
        &&& self.mode == Mode::Edit
    }

    /// What `handle_external_change` does with the disk content `content`.
    pub open spec fn external_noted(before: Self, content: String, after: Self) -> bool {
        if before.text() == content@ {
            &&& after == (App {
                external_change: false,
                external_content: None,
                diff_lines: after.diff_lines,
                mode: if before.mode == Mode::Diff {
                    Mode::Edit
                } else {
                    before.mode
                },
                ..before
            })
            &&& after.diff_lines@.len() == 0
        } else {
            after == (App { external_change: true, external_content: Some(content), ..before })
        }
    }

    /// What `open_diff` does.
    pub open spec fn diff_opened(before: Self, after: Self) -> bool {
        match before.external_content {
            Some(ext) => {
                let d = line_diff(before.text(), ext@);
                &&& after == (App { diff_lines: after.diff_lines, diff_scroll: 0, mode: Mode::Diff, ..before })
                &&& after.diff_lines@.len() == d.len()
                &&& forall|i: int|
                    0 <= i < after.diff_lines@.len() ==> (#[trigger] after.diff_lines@[i]).tag == d[i].0
                        && after.diff_lines@[i].text@ == without_final_newline(d[i].1)
            },
            None => after == before,
        }
    }

    /// What `accept_external` does: the pending content becomes the
    /// buffer's text, clean and undoable, with the cursor and the view
    /// brought onto it; the review closes.
    pub open spec fn external_accepted(before: Self, after: Self) -> bool {
        &&& after == (App {
            buffer: after.buffer,
            external_content: None,
            external_change: false,
            diff_lines: after.diff_lines,
            mode: Mode::Edit,
            ..before
        })
        &&& after.diff_lines@.len() == 0
        &&& match before.external_content {
            Some(content) => {
                let s = content@;
                &&& after.text() == s
                &&& !after.buffer.dirty
                &&& Buffer::snapshot_recorded(before.buffer, after.buffer)
                &&& after.buffer.state_id() == before.buffer.next_state_id()
                &&& after.buffer.clean_state_id() == after.buffer.state_id()
                &&& after.buffer.cursor.line == if before.buffer.cursor.line <= last_line(s) {
                    before.buffer.cursor.line as nat
                } else {
                    last_line(s)
                }
                &&& after.buffer.cursor.col == clamped_col(
                    s,
                    after.buffer.cursor.line as nat,
                    before.buffer.cursor.col as nat,
                )
                &&& after.buffer.scroll_offset == if before.buffer.scroll_offset <= last_line(s) {
                    before.buffer.scroll_offset as nat
                } else {
                    last_line(s)
                }
                &&& after.buffer.path == before.buffer.path
                &&& after.buffer.display_name == before.buffer.display_name
            },
            None => after.buffer == before.buffer,
        }
    }

    /// What `reject_external` does.
    pub open spec fn external_rejected(before: Self, after: Self) -> bool {
        &&& after == (App {
            external_content: None,
            external_change: false,
            diff_lines: after.diff_lines,
            mode: Mode::Edit,
            ..before
        })
        &&& after.diff_lines@.len() == 0
    }

    /// What `request_quit` does.
    pub open spec fn quit_requested(before: Self, after: Self) -> bool {
        if before.buffer.dirty {
            after == (App {
                quit_return_mode: before.mode,
                quit_selected: QuitAction::Save,
                mode: Mode::QuitConfirm,
                ..before
            })
        } else {
            after == (App { should_quit: true, ..before })
        }
    }

    /// What `cancel_quit` does.
    pub open spec fn quit_cancelled(before: Self, after: Self) -> bool {
        after == (App { mode: before.quit_return_mode, ..before })
    }

    /// The message that reports a save.
    pub open spec fn save_message(outcome: Result<(), String>) -> Seq<char> {
        match outcome {
            Ok(()) => "Saved"@,
            Err(e) => "Save failed: "@ + e@,
        }
    }

    /// What `record_save_outcome` does: the message reports the save, and a
    /// save that went through makes the current state the saved one.
    pub open spec fn save_reported(before: Self, outcome: Result<(), String>, after: Self) -> bool {
        &&& after == (App { message: after.message, buffer: after.buffer, ..before })
        &&& after.message matches Some(m) && m@ == Self::save_message(outcome)
        &&& if outcome is Ok {
            Buffer::marked_clean(before.buffer, after.buffer)
        } else {
            after.buffer == before.buffer
        }
    }

    /// What `build_outline` does.
    pub open spec fn outline_built(before: Self, after: Self) -> bool {
        &&& after == (App { outline_entries: after.outline_entries, outline_selected: 0, ..before })
        &&& after.outline_entries@.len() == outline_of(before.text()).len()
        &&& forall|i: int|
            0 <= i < after.outline_entries@.len() ==> {
                let e = #[trigger] after.outline_entries@[i];
                let o = outline_of(before.text())[i];
                e.level == o.0 && e.text@ == o.1 && e.line == o.2
            }
    }

    /// The editor over a loaded buffer, in edit mode.
    pub fn new(buffer: Buffer) -> (app: Self)
        ensures
            app.buffer == buffer,
            app.mode == Mode::Edit,
            !app.should_quit,
            app.message is None,
            app.preview_scroll == 0,
            app.outline_entries@.len() == 0,
            app.outline_selected == 0,
            !app.external_change,
            app.external_content is None,
            app.diff_lines@.len() == 0,
            app.diff_scroll == 0,
            app.quit_return_mode == Mode::Edit,
            app.quit_selected == QuitAction::Save,
            app.caches_coherent(),
    {
        Self {
            buffer,
            mode: Mode::Edit,
            should_quit: false,
            message: None,
            preview_scroll: 0,
            outline_entries: Vec::new(),
            outline_selected: 0,
            external_change: false,
            external_content: None,
            diff_lines: Vec::new(),
            diff_scroll: 0,
            quit_return_mode: Mode::Edit,
            quit_selected: QuitAction::Save,
            caches: ViewCaches::new(),
        }
    }

    /// The status line (see `status_text`).
    pub fn status_line(&mut self) -> (s: String)
        ensures
            s@ == status_text(
                old(self).buffer.display_name@,
                old(self).buffer.dirty,
                old(self).external_change,
                old(self).mode,
                (old(self).cursor_line_shown() + 1) as nat,
                old(self).section_shown(),
            ),
            old(self).caches_coherent() ==> final(self).caches_coherent(),
            old(self).caches_coherent() ==> old(self).section_shown() == section_at(
                old(self).text(),
                old(self).cursor_line_shown() as int,
            ),
            *final(self) == (App { caches: final(self).caches, ..*old(self) }),
    {
        let mut s = self.buffer.display_name.clone();
        if self.buffer.dirty {
            push_str(&mut s, " *");
        }
        if self.external_change {
            push_str(&mut s, " \u{26a1}");
        }
        push_str(&mut s, " | ");
        let label = match self.mode {
            Mode::Edit => "EDIT",
            Mode::Preview => "PREVIEW",
            Mode::Outline => "OUTLINE",
            Mode::Diff => "DIFF",
            Mode::QuitConfirm => "QUIT",
        };
        push_str(&mut s, label);
        push_str(&mut s, " | Ln ");
        let last = self.buffer.rope.len_lines() - 1;
        let line = if self.buffer.cursor.line < last {
            self.buffer.cursor.line
        } else {
            last
        };
        let ln = usize_to_decimal(line + 1);
        push_str(&mut s, ln.as_str());
        let section = self.current_section_cached();
        match section {
            Some(t) => {
                push_str(&mut s, " | Section: ");
                push_str(&mut s, t.as_str());
            },
            None => {},
        }
        proof {
            let sec = old(self).section_shown();
            assert(s@ =~= status_text(
                old(self).buffer.display_name@,
                old(self).buffer.dirty,
                old(self).external_change,
                old(self).mode,
                (old(self).cursor_line_shown() + 1) as nat,
                sec,
            ));
        }
        s
    }

    /// The headings of the text, listed for the outline, with the first one
    /// selected.
    pub fn build_outline(&mut self)
        ensures
            Self::outline_built(*old(self), *final(self)),
    {
        self.outline_entries.clear();
        let n = self.buffer.rope.len_lines();
        let mut i: usize = 0;
        while i < n
            invariant
                i <= n == line_count(self.text()),
                *self == (App { outline_entries: self.outline_entries, ..*old(self) }),
                self.outline_entries@.len() == outline_upto(self.text(), i as nat).len(),
                forall|j: int|
                    0 <= j < self.outline_entries@.len() ==> {
                        let e = #[trigger] self.outline_entries@[j];
                        let o = outline_upto(self.text(), i as nat)[j];
                        e.level == o.0 && e.text@ == o.1 && e.line == o.2
                    },
            decreases n - i,
        {
            if let Some((level, text)) = self.buffer.heading_at(i) {
                self.outline_entries.push(HeadingEntry { level, text, line: i });
            }
            i += 1;
        }
        self.outline_selected = 0;
    }

    /// Takes note of the file's content on disk: a pending external change
    /// when it differs from the buffer, and none when it matches.
    pub fn handle_external_change(&mut self, new_content: String)
        ensures
            Self::external_noted(*old(self), new_content, *final(self)),
    {
        if rope_eq_str(&self.buffer.rope, new_content.as_str()) {
            self.external_change = false;
            self.external_content = None;
            self.diff_lines.clear();
            if self.mode == Mode::Diff {
                self.mode = Mode::Edit;
            }
        } else {
            self.external_change = true;
            self.external_content = Some(new_content);
        }
    }

    /// Opens the diff from the buffer to the pending external content.
    pub fn open_diff(&mut self)
        ensures
            Self::diff_opened(*old(self), *final(self)),
    {
        match &self.external_content {
            Some(ext) => {
                let current = rope_to_string(&self.buffer.rope);
                let lines = compute_diff(current.as_str(), ext.as_str());
                self.diff_lines = lines;
                self.diff_scroll = 0;
                self.mode = Mode::Diff;
            },
            None => {},
        }
    }

    /// Takes the pending external content into the buffer as a clean state
    /// that can be undone, brings the cursor and view onto it, and closes
    /// the review.
    pub fn accept_external(&mut self)
        ensures
            Self::external_accepted(*old(self), *final(self)),
    {
        let taken = self.external_content.take();
        match taken {
            Some(content) => {
                self.buffer.save_snapshot();
                self.buffer.replace_synced_content(Rope::from_str(content.as_str()));
                self.buffer.cursor.clamp(&self.buffer.rope);
                let last = self.buffer.rope.len_lines() - 1;
                if self.buffer.scroll_offset > last {
                    self.buffer.scroll_offset = last;
                }
            },
            None => {},
        }
        self.external_change = false;
        self.diff_lines.clear();
        self.mode = Mode::Edit;
    }

    /// Drops the pending external content and closes the review.
    pub fn reject_external(&mut self)
        ensures
            Self::external_rejected(*old(self), *final(self)),
    {
        self.external_content = None;
        self.external_change = false;
        self.diff_lines.clear();
        self.mode = Mode::Edit;
    }

    /// Quits at once when nothing is unsaved; otherwise asks, with Save
    /// selected, and remembers the mode to come back to.
    pub fn request_quit(&mut self)
        ensures
            Self::quit_requested(*old(self), *final(self)),
    {
        if self.buffer.dirty {
            self.quit_return_mode = self.mode;
            self.quit_selected = QuitAction::Save;
            self.mode = Mode::QuitConfirm;
        } else {
            self.should_quit = true;
        }
    }

    pub fn cancel_quit(&mut self)
        ensures
            Self::quit_cancelled(*old(self), *final(self)),
    {
        self.mode = self.quit_return_mode;
    }

    pub fn discard_and_quit(&mut self)
        ensures
            *final(self) == (App { should_quit: true, ..*old(self) }),
    {
        self.should_quit = true;
    }

    /// Reports how saving before quitting went: on success the buffer is
    /// clean and the editor quits with "Saved"; on failure it stays, as it
    /// was, with the reason.
    pub fn finish_save_and_quit(&mut self, outcome: Result<(), String>)
        ensures
            final(self).message matches Some(m) && m@ == Self::save_message(outcome),
            *final(self) == (App {
                message: final(self).message,
                buffer: final(self).buffer,
                should_quit: old(self).should_quit || outcome is Ok,
                ..*old(self)
            }),
            outcome is Ok ==> Buffer::marked_clean(old(self).buffer, final(self).buffer),
            outcome is Ok ==> !final(self).buffer.dirty && final(self).buffer.clean_state_id()
                == final(self).buffer.state_id(),
            outcome is Err ==> final(self).buffer == old(self).buffer,
    {
        let saved = outcome.is_ok();
        self.record_save_outcome(outcome);
        if saved {
            self.should_quit = true;
        }
    }

    /// Reports how writing the buffer to its file went: "Saved", with the
    /// buffer marked clean, or the reason it failed.
    pub fn record_save_outcome(&mut self, outcome: Result<(), String>)
        ensures
            Self::save_reported(*old(self), outcome, *final(self)),
    {
        match outcome {
            Ok(()) => {
                self.buffer.mark_clean();
                let mut m = String::new();
                push_str(&mut m, "Saved");
                assert(m@ =~= "Saved"@);
                self.message = Some(m);
            },
            Err(e) => {
                let mut m = String::new();
                push_str(&mut m, "Save failed: ");
                push_str(&mut m, e.as_str());
                assert(m@ =~= "Save failed: "@ + e@);
                self.message = Some(m);
            },
        }
    }

    pub fn select_next_quit_action(&mut self)
        ensures
            *final(self) == (App { quit_selected: next_quit_action(old(self).quit_selected), ..*old(self) }),
    {
        self.quit_selected = match self.quit_selected {
            QuitAction::Save => QuitAction::Discard,
            QuitAction::Discard => QuitAction::Cancel,
            QuitAction::Cancel => QuitAction::Save,
        };
    }

    pub fn select_prev_quit_action(&mut self)
        ensures
            *final(self) == (App { quit_selected: prev_quit_action(old(self).quit_selected), ..*old(self) }),
    {
        self.quit_selected = match self.quit_selected {
            QuitAction::Save => QuitAction::Cancel,
            QuitAction::Discard => QuitAction::Save,
            QuitAction::Cancel => QuitAction::Discard,
        };
    }

    /// How many rows the preview has.
    pub fn preview_row_count(&mut self) -> (n: usize)
        ensures
            n == old(self).preview_shown().len(),
            old(self).caches_coherent() ==> n == preview_rows(old(self).text()).len(),
            old(self).caches_coherent() ==> final(self).caches_coherent(),
            *final(self) == (App { caches: final(self).caches, ..*old(self) }),
    {
        self.refresh_preview_cache();
        self.cached_preview_len()
    }

    /// Up to `height` preview rows from `offset` on (an offset past the end
    /// shows the last row).
    pub fn preview_visible_rows(&mut self, offset: usize, height: usize) -> (rows: Vec<PreviewRow>)
        ensures
            ({
                let all = old(self).preview_shown();
                let start = if all.len() == 0 {
                    0
                } else if offset < all.len() {
                    offset as int
                } else {
                    all.len() - 1
                };
                let end = if start + height < all.len() {
                    start + height
                } else {
                    all.len() as int
                };
                rows@ == all.subrange(start, end)
            }),
            old(self).caches_coherent() ==> rows@ == ({
                let all = preview_rows(old(self).text());
                let start = if all.len() == 0 {
                    0
                } else if offset < all.len() {
                    offset as int
                } else {
                    all.len() - 1
                };
                let end = if start + height < all.len() {
                    start + height
                } else {
                    all.len() as int
                };
                all.subrange(start, end)
            }),
            old(self).caches_coherent() ==> final(self).caches_coherent(),
            *final(self) == (App { caches: final(self).caches, ..*old(self) }),
    {
        self.refresh_preview_cache();
        self.cached_preview_window(offset, height)
    }

    /// The section title for the status line, from the cache when it was
    /// found for the current revision and cursor line.
    fn current_section_cached(&mut self) -> (section: Option<String>)
        ensures
            match section {
                Some(t) => old(self).section_shown() == Some(t@),
                None => old(self).section_shown() is None,
            },
            old(self).caches_coherent() ==> final(self).caches_coherent(),
            old(self).caches_coherent() ==> old(self).section_shown() == section_at(
                old(self).text(),
                old(self).cursor_line_shown() as int,
            ),
            *final(self) == (App { caches: final(self).caches, ..*old(self) }),
            final(self).caches.preview_entry() == old(self).caches.preview_entry(),
    {
        let revision = self.buffer.content_revision();
        let last = self.buffer.rope.len_lines() - 1;
        let cursor_line = if self.buffer.cursor.line < last {
            self.buffer.cursor.line
        } else {
            last
        };
        let fresh = match &self.caches.section {
            Some(c) => c.revision == revision && c.cursor_line == cursor_line,
            None => false,
        };
        if !fresh {
            let value = self.buffer.current_section();
            self.caches.section = Some(SectionCache { revision, cursor_line, value });
        }
        match &self.caches.section {
            Some(c) => match &c.value {
                Some(v) => Some(v.clone()),
                None => None,
            },
            None => None,
        }
    }

    /// Rebuilds the preview rows unless the cache holds them for the
    /// current revision.
    fn refresh_preview_cache(&mut self)
        ensures
            final(self).caches.preview_entry() == Some(
                (old(self).buffer.revision(), old(self).preview_shown()),
            ),
            old(self).caches_coherent() ==> final(self).caches_coherent(),
            *final(self) == (App { caches: final(self).caches, ..*old(self) }),
            final(self).caches.section_entry() == old(self).caches.section_entry(),
    {
        let revision = self.buffer.content_revision();
        let fresh = match &self.caches.preview {
            Some(c) => c.revision == revision,
            None => false,
        };
        if !fresh {
            let rows = self.build_preview_rows();
            self.caches.preview = Some(PreviewCache { revision, rows });
        }
    }

    fn cached_preview_len(&self) -> (n: usize)
        requires
            self.caches.preview_entry() is Some,
        ensures
            n == self.caches.preview_entry().unwrap().1.len(),
    {
        match &self.caches.preview {
            Some(c) => c.rows.len(),
            None => 0,
        }
    }

    fn cached_preview_window(&self, offset: usize, height: usize) -> (rows: Vec<PreviewRow>)
        requires
            self.caches.preview_entry() is Some,
        ensures
            ({
                let all = self.caches.preview_entry().unwrap().1;
                let start = if all.len() == 0 {
                    0
                } else if offset < all.len() {
                    offset as int
                } else {
                    all.len() - 1
                };
                let end = if start + height < all.len() {
                    start + height
                } else {
                    all.len() as int
                };
                rows@ == all.subrange(start, end)
            }),
    {
        let mut out: Vec<PreviewRow> = Vec::new();
        match &self.caches.preview {
            Some(c) => {
                let n = c.rows.len();
                let start = if n == 0 {
                    0
                } else if offset < n {
                    offset
                } else {
                    n - 1
                };
                let end = if height < n - start {
                    start + height
                } else {
                    n
                };
                let mut i = start;
                while i < end
                    invariant
                        start <= i <= end <= n == c.rows@.len(),
                        out@ == c.rows@.subrange(start as int, i as int),
                    decreases end - i,
                {
                    out.push(c.rows[i]);
                    i += 1;
                    assert(out@ =~= c.rows@.subrange(start as int, i as int));
                }
            },
            None => {},
        }
        out
    }

    /// The preview rows of the buffer's text.
    fn build_preview_rows(&self) -> (rows: Vec<PreviewRow>)
        ensures
            rows@ == preview_rows(self.text()),
    {
        let n = self.buffer.rope.len_lines();
        let mut rows: Vec<PreviewRow> = Vec::new();
        let mut in_code_block = false;
        let mut line_idx: usize = 0;
        while line_idx < n
            invariant
                line_idx <= n == line_count(self.text()),
                (rows@, in_code_block) == preview_rows_upto(self.text(), line_idx as nat),
            decreases n - line_idx,
        {
            let line = rope_line(&self.buffer.rope, line_idx);
            if is_code_fence(&line) {
                in_code_block = !in_code_block;
                let kind = if in_code_block {
                    PreviewRowKind::FenceStart
                } else {
                    PreviewRowKind::FenceEnd
                };
                rows.push(PreviewRow { source_line: None, kind });
            } else if in_code_block {
                rows.push(PreviewRow { source_line: Some(line_idx), kind: PreviewRowKind::Code });
            } else {
                match heading_level(&line) {
                    Some(level) => {
                        rows.push(PreviewRow { source_line: Some(line_idx), kind: PreviewRowKind::Heading(level) });
                        if level <= 2 {
                            rows.push(PreviewRow { source_line: None, kind: PreviewRowKind::Blank });
                        }
                    },
                    None => {
                        let kind = if is_blockquote(&line) {
                            PreviewRowKind::Blockquote
                        } else if is_horizontal_rule(&line) {
                            PreviewRowKind::HorizontalRule
                        } else if is_list_item(&line) {
                            PreviewRowKind::List
                        } else if is_blank(&line) {
                            PreviewRowKind::Blank
                        } else {
                            PreviewRowKind::Plain
                        };
                        rows.push(PreviewRow { source_line: Some(line_idx), kind });
                    },
                }
            }
            line_idx += 1;
        }
        rows
    }
}

/// Selecting the next quit action three times comes back to where it started.
pub proof fn law_quit_selection_wraps(a: QuitAction)
    ensures
        next_quit_action(next_quit_action(next_quit_action(a))) == a,
        prev_quit_action(prev_quit_action(prev_quit_action(a))) == a,
{
}

/// Selecting the previous quit action undoes selecting the next one, and
/// the other way round.
pub proof fn law_quit_selection_inverse(a: QuitAction)
    ensures
        prev_quit_action(next_quit_action(a)) == a,
        next_quit_action(prev_quit_action(a)) == a,
{
}

/// When the file on disk comes to match the buffer again, the alert and the
/// pending content are gone and the diff view is closed, whatever came before;
/// the buffer stays as it is.
pub proof fn law_alert_clears_when_disk_matches(a0: App, content: String, a1: App)
    requires
        App::external_noted(a0, content, a1),
        content@ == a0.text(),
    ensures
        !a1.external_change,
        a1.external_content is None,
        a1.diff_lines@.len() == 0,
        a1.mode != Mode::Diff,
        a1.buffer == a0.buffer,
{
}

/// A change on disk that differs from the buffer raises the alert and
/// keeps the disk content for review, without touching the buffer.
pub proof fn law_differing_disk_content_is_kept_for_review(a0: App, content: String, a1: App)
    requires
        App::external_noted(a0, content, a1),
        content@ != a0.text(),
    ensures
        a1.external_change,
        a1.external_content == Some(content),
        a1.buffer == a0.buffer,
{
}

/// Accepting the disk content leaves the buffer clean, so a quit request
/// quits at once instead of asking.
pub proof fn law_accept_then_quit_needs_no_confirmation(a0: App, a1: App, a2: App)
    requires
        a0.external_content is Some,
        App::external_accepted(a0, a1),
        App::quit_requested(a1, a2),
    ensures
        a2.should_quit,
        a2.mode != Mode::QuitConfirm,
        a2.text() == a0.external_content.unwrap()@,
{
}

/// Accepting the disk content can be undone: an undo brings back the text
/// and the cursor from before the accept.
pub proof fn law_accept_can_be_undone(a0: App, a1: App, b2: Buffer)
    requires
        a0.external_content is Some,
        App::external_accepted(a0, a1),
        Buffer::undone(a1.buffer, b2),
    ensures
        b2.text() == a0.text(),
        b2.cursor.line == a0.buffer.cursor.line,
        b2.cursor.col == a0.buffer.cursor.col,
{
    assert(a1.buffer.undo_stack.undo_entries().len() > 0);
}

/// Asking to quit with unsaved changes and then cancelling returns to the
/// mode the quit was asked from, without quitting.
pub proof fn law_cancelled_quit_returns_to_mode(a0: App, a1: App, a2: App)
    requires
        a0.buffer.dirty,
        !a0.should_quit,
        App::quit_requested(a0, a1),
        App::quit_cancelled(a1, a2),
    ensures
        a2.mode == a0.mode,
        !a2.should_quit,
{
}

/// The source lines that the rows show, in order.
pub open spec fn source_lines(rows: Seq<PreviewRow>) -> Seq<usize>
    decreases rows.len(),
{
    if rows.len() == 0 {
        Seq::empty()
    } else {
        match rows.last().source_line {
            Some(l) => source_lines(rows.drop_last()).push(l),
            None => source_lines(rows.drop_last()),
        }
    }
}

/// The lines among the first `n` of `s` that are not code fences, in order.
pub open spec fn non_fence_lines(s: Seq<char>, n: nat) -> Seq<usize>
    decreases n,
{
    if n == 0 {
        Seq::empty()
    } else {
        let l = (n - 1) as nat;
        if is_code_fence_spec(line_chars(s, l)) {
            non_fence_lines(s, l)
        } else {
            non_fence_lines(s, l).push(l as usize)
        }
    }
}

/// How many code blocks are open after the rows: each opening fence opens
/// one and each closing fence closes one.
pub open spec fn fence_depth(rows: Seq<PreviewRow>) -> int
    decreases rows.len(),
{
    if rows.len() == 0 {
        0
    } else {
        fence_depth(rows.drop_last()) + match rows.last().kind {
            PreviewRowKind::FenceStart => 1int,
            PreviewRowKind::FenceEnd => -1int,
            _ => 0int,
        }
    }
}

/// Fences alternate, opening first, and the rows inside a code block are
/// code and only they: before each row at most one block is open, an
/// opening fence comes with none open, a closing one with one open.
#[verifier::opaque]
pub open spec fn fences_nest(rows: Seq<PreviewRow>) -> bool {
    forall|i: int|
        0 <= i < rows.len() ==> {
            let d = fence_depth(#[trigger] rows.take(i));
            let r = rows[i];
            &&& d == 0 || d == 1
            &&& r.kind == PreviewRowKind::FenceStart ==> d == 0
            &&& r.kind == PreviewRowKind::FenceEnd ==> d == 1
            &&& !r_is_fence(r) ==> (r.kind == PreviewRowKind::Code <==> d == 1)
        }
}

/// A row without a source line is a fence or the blank after a heading of
/// level one or two; a row with one is no fence.
#[verifier::opaque]
pub open spec fn extra_rows_explained(rows: Seq<PreviewRow>) -> bool {
    &&& forall|i: int|
        0 <= i < rows.len() && (#[trigger] rows[i]).source_line is None ==> r_is_fence(rows[i]) || (
        rows[i].kind == PreviewRowKind::Blank && i > 0 && heading_with_blank(rows[i - 1]))
    &&& forall|i: int| 0 <= i < rows.len() && (#[trigger] rows[i]).source_line is Some ==> !r_is_fence(rows[i])
}

/// A heading of level one or two is followed by a blank row.
#[verifier::opaque]
pub open spec fn headings_get_blanks(rows: Seq<PreviewRow>) -> bool {
    forall|i: int|
        0 <= i && i + 1 < rows.len() && heading_with_blank(#[trigger] rows[i]) ==> rows[i + 1] == (PreviewRow {
            source_line: None,
            kind: PreviewRowKind::Blank,
        })
}

/// The shape that the preview rows keep as they are built.
pub open spec fn preview_shape_core(rows: Seq<PreviewRow>) -> bool {
    &&& fences_nest(rows)
    &&& extra_rows_explained(rows)
    &&& headings_get_blanks(rows)
}

/// The shape of finished preview rows: the core shape, and no heading that
/// wants a blank comes last.
pub open spec fn preview_shape(rows: Seq<PreviewRow>) -> bool {
    &&& preview_shape_core(rows)
    &&& rows.len() > 0 ==> !heading_with_blank(rows.last())
}

/// An opening or closing fence row.
pub open spec fn r_is_fence(r: PreviewRow) -> bool {
    r.kind == PreviewRowKind::FenceStart || r.kind == PreviewRowKind::FenceEnd
}

/// A heading row of level one or two, which the preview follows with a blank.
pub open spec fn heading_with_blank(r: PreviewRow) -> bool {
    r.source_line is Some && match r.kind {
        PreviewRowKind::Heading(level) => level <= 2,
        _ => false,
    }
}

proof fn lemma_push_row(rows: Seq<PreviewRow>, x: PreviewRow)
    ensures
        fence_depth(rows.push(x)) == fence_depth(rows) + match x.kind {
            PreviewRowKind::FenceStart => 1int,
            PreviewRowKind::FenceEnd => -1int,
            _ => 0int,
        },
        source_lines(rows.push(x)) == match x.source_line {
            Some(l) => source_lines(rows).push(l),
            None => source_lines(rows),
        },
        rows.push(x).take(rows.len() as int) == rows,
        forall|i: int| 0 <= i < rows.len() ==> #[trigger] rows.push(x).take(i) == rows.take(i),
{
    assert(rows.push(x).drop_last() =~= rows);
    assert(rows.push(x).take(rows.len() as int) =~= rows);
    assert forall|i: int| 0 <= i < rows.len() implies #[trigger] rows.push(x).take(i) == rows.take(i) by {
        assert(rows.push(x).take(i) =~= rows.take(i));
    }
}

proof fn lemma_preview_rows_upto_shape(s: Seq<char>, n: nat)
    requires
        n <= line_count(s),
        s.len() < usize::MAX,
    ensures
        preview_shape(preview_rows_upto(s, n).0),
        fence_depth(preview_rows_upto(s, n).0) == if preview_rows_upto(s, n).1 { 1int } else { 0int },
        source_lines(preview_rows_upto(s, n).0) == non_fence_lines(s, n),
    decreases n,
{
    if n == 0 {
        assert(preview_rows_upto(s, 0).0 =~= Seq::<PreviewRow>::empty());
        reveal(fences_nest);
        reveal(extra_rows_explained);
        reveal(headings_get_blanks);
    } else {
        let l = (n - 1) as nat;
        lemma_preview_rows_upto_shape(s, l);
        crate::lines::lemma_breaks_before_bounds(s, 0, s.len() as int);
        crate::lines::lemma_line_len_bounds(s, l);
        crate::markdown::lemma_heading_level_bound(line_chars(s, l));
        let prev = preview_rows_upto(s, l);
        let rows = prev.0;
        let line = line_chars(s, l);
        let blank = PreviewRow { source_line: None, kind: PreviewRowKind::Blank };
        if is_code_fence_spec(line) {
            let x = PreviewRow {
                source_line: None,
                kind: if !prev.1 { PreviewRowKind::FenceStart } else { PreviewRowKind::FenceEnd },
            };
            lemma_push_row(rows, x);
            lemma_shape_push(rows, x);
        } else if prev.1 {
            let x = PreviewRow { source_line: Some(l as usize), kind: PreviewRowKind::Code };
            lemma_push_row(rows, x);
            lemma_shape_push(rows, x);
        } else {
            match heading_level_spec(line) {
                Some(level) => {
                    let x = PreviewRow {
                        source_line: Some(l as usize),
                        kind: PreviewRowKind::Heading(level as usize),
                    };
                    lemma_push_row(rows, x);
                    lemma_shape_push(rows, x);
                    if level <= 2 {
                        lemma_push_row(rows.push(x), blank);
                        lemma_shape_push(rows.push(x), blank);
                    }
                },
                None => {
                    let x = PreviewRow { source_line: Some(l as usize), kind: plain_row_kind(line) };
                    lemma_push_row(rows, x);
                    lemma_shape_push(rows, x);
                },
            }
        }
    }
}

proof fn lemma_fences_nest_push(rows: Seq<PreviewRow>, x: PreviewRow)
    requires
        fences_nest(rows),
        fence_depth(rows) == 0 || fence_depth(rows) == 1,
        x.kind == PreviewRowKind::FenceStart ==> fence_depth(rows) == 0,
        x.kind == PreviewRowKind::FenceEnd ==> fence_depth(rows) == 1,
        !r_is_fence(x) ==> (x.kind == PreviewRowKind::Code <==> fence_depth(rows) == 1),
    ensures
        fences_nest(rows.push(x)),
{
    reveal(fences_nest);
    lemma_push_row(rows, x);
    let r2 = rows.push(x);
    assert forall|i: int| 0 <= i < r2.len() implies {
        let d = fence_depth(#[trigger] r2.take(i));
        let r = r2[i];
        &&& d == 0 || d == 1
        &&& r.kind == PreviewRowKind::FenceStart ==> d == 0
        &&& r.kind == PreviewRowKind::FenceEnd ==> d == 1
        &&& !r_is_fence(r) ==> (r.kind == PreviewRowKind::Code <==> d == 1)
    } by {
        if i < rows.len() {
            assert(r2[i] == rows[i]);
            assert(r2.take(i) == rows.take(i));
        }
    }
}

proof fn lemma_extra_rows_push(rows: Seq<PreviewRow>, x: PreviewRow)
    requires
        extra_rows_explained(rows),
        x.source_line is None ==> r_is_fence(x) || (x.kind == PreviewRowKind::Blank && rows.len() > 0
            && heading_with_blank(rows.last())),
        x.source_line is Some ==> !r_is_fence(x),
    ensures
        extra_rows_explained(rows.push(x)),
{
    reveal(extra_rows_explained);
    let r2 = rows.push(x);
    assert forall|i: int| 0 <= i < r2.len() && (#[trigger] r2[i]).source_line is None implies r_is_fence(r2[i])
        || (r2[i].kind == PreviewRowKind::Blank && i > 0 && heading_with_blank(r2[i - 1])) by {
        if i < rows.len() {
            assert(r2[i] == rows[i]);
            if i > 0 {
                assert(r2[i - 1] == rows[i - 1]);
            }
        } else if i > 0 {
            assert(r2[i - 1] == rows.last());
        }
    }
    assert forall|i: int| 0 <= i < r2.len() && (#[trigger] r2[i]).source_line is Some implies !r_is_fence(r2[i]) by {
        if i < rows.len() {
            assert(r2[i] == rows[i]);
        }
    }
}

proof fn lemma_headings_push(rows: Seq<PreviewRow>, x: PreviewRow)
    requires
        headings_get_blanks(rows),
        rows.len() > 0 && heading_with_blank(rows.last()) ==> x == (PreviewRow {
            source_line: None,
            kind: PreviewRowKind::Blank,
        }),
    ensures
        headings_get_blanks(rows.push(x)),
{
    reveal(headings_get_blanks);
    let r2 = rows.push(x);
    assert forall|i: int| 0 <= i && i + 1 < r2.len() && heading_with_blank(#[trigger] r2[i]) implies r2[i + 1]
        == (PreviewRow { source_line: None, kind: PreviewRowKind::Blank }) by {
        if i + 1 < rows.len() {
            assert(r2[i] == rows[i] && r2[i + 1] == rows[i + 1]);
        } else {
            assert(r2[i] == rows.last());
        }
    }
}

/// Appending a row keeps the core shape when the row fits the depth it
/// comes at and follows a heading that wants a blank only if it is that blank.
proof fn lemma_shape_push(rows: Seq<PreviewRow>, x: PreviewRow)
    requires
        preview_shape_core(rows),
        fence_depth(rows) == 0 || fence_depth(rows) == 1,
        x.kind == PreviewRowKind::FenceStart ==> fence_depth(rows) == 0,
        x.kind == PreviewRowKind::FenceEnd ==> fence_depth(rows) == 1,
        !r_is_fence(x) ==> (x.kind == PreviewRowKind::Code <==> fence_depth(rows) == 1),
        x.source_line is None ==> r_is_fence(x) || (x.kind == PreviewRowKind::Blank && rows.len() > 0
            && heading_with_blank(rows.last())),
        x.source_line is Some ==> !r_is_fence(x),
        rows.len() > 0 && heading_with_blank(rows.last()) ==> x == (PreviewRow {
            source_line: None,
            kind: PreviewRowKind::Blank,
        }),
    ensures
        preview_shape_core(rows.push(x)),
{
    lemma_fences_nest_push(rows, x);
    lemma_extra_rows_push(rows, x);
    lemma_headings_push(rows, x);
}

/// The preview's rows, in order: the lines that are not code fences each
/// give one row that shows them, in order, and only they; fences alternate,
/// opening first; the rows inside a code block are code and only they; and
/// the only other rows are one blank right after each heading of level one
/// or two.
pub proof fn law_preview_rows_follow_the_lines(s: Seq<char>)
    requires
        s.len() < usize::MAX,
    ensures
        source_lines(preview_rows(s)) == non_fence_lines(s, line_count(s)),
        preview_shape_core(preview_rows(s)),
        forall|i: int|
            0 <= i < preview_rows(s).len() && heading_with_blank(#[trigger] preview_rows(s)[i]) ==> i + 1
                < preview_rows(s).len(),
{
    lemma_preview_rows_upto_shape(s, line_count(s));
    let rows = preview_rows(s);
    assert forall|i: int| 0 <= i < rows.len() && heading_with_blank(#[trigger] rows[i]) implies i + 1 < rows.len() by {
        if i + 1 == rows.len() {
            assert(rows[i] == rows.last());
        }
    }
}

/// A bullet line (`-`, `*` or `+` and a space, after spaces and tabs) that
/// is not inside a code block gets a list row in the preview.
pub proof fn law_bullet_lines_get_list_rows(
    s: Seq<char>,
    l: nat,
    indent: Seq<char>,
    c: char,
    rest: Seq<char>,
)
    requires
        c == '-' || c == '*' || c == '+',
        forall|j: int| 0 <= j < indent.len() ==> crate::markdown::is_blank_char(#[trigger] indent[j]),
        line_chars(s, l) == indent + seq![c, ' '] + rest,
        !preview_rows_upto(s, l).1,
    ensures
        plain_row_kind(indent + seq![c, ' '] + rest) == PreviewRowKind::List,
        preview_rows_upto(s, l + 1).0 == preview_rows_upto(s, l).0.push(
            PreviewRow { source_line: Some(l as usize), kind: PreviewRowKind::List },
        ),
        !preview_rows_upto(s, l + 1).1,
{
    crate::markdown::law_bullet_lines_are_list_items(indent, c, rest);
}

} // verus!
