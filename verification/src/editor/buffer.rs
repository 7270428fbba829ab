//! The text buffer: a rope with a cursor, a scroll offset, an undo history
//! and a dirty flag that follows whether the text matches the saved state.

use vstd::prelude::*;
use ropey::Rope;
use std::path::PathBuf;

use super::cursor::{clamped_col, moved_left, Cursor};
use super::undo::{Snapshot, UndoStack};
use crate::lines::{
    breaks_before, is_break_end, last_line, lemma_breaks_before_bounds, lemma_line_of_index,
    lemma_line_start, lemma_line_start_unique, lemma_no_break_same_count,
    lemma_remove_keeps_breaks_before, line_chars, line_count, line_len, line_start, only_lf_breaks,
    position_index,
};
use crate::markdown::{heading_of, parse_heading};
use crate::ropes::{rope_line, rope_remove, rope_text};
use crate::strings::{chars_to_string, string_push};

verus! {

/// `std::path::PathBuf`, made known to Verus as an opaque type: a buffer only
/// carries its path along and never looks inside it.
#[verifier::external_type_specification]
#[verifier::external_body]
pub struct ExPathBuf(std::path::PathBuf);

pub struct Buffer {
    pub rope: Rope,
    pub cursor: Cursor,
    pub scroll_offset: usize,
    pub dirty: bool,
    pub path: PathBuf,
    pub display_name: String,
    pub states: StateIds,
    pub undo_stack: UndoStack,
}

/// The identities that dirty tracking goes by: each new text state gets a
/// fresh one, and the clean one is that of the state saved on disk.
pub struct StateIds {
    revision: u64,
    state_id: u64,
    clean_state_id: u64,
    next_state_id: u64,
}

impl StateIds {
    pub closed spec fn revision(self) -> u64 {
        self.revision
    }

    pub closed spec fn state_id(self) -> u64 {
        self.state_id
    }

    pub closed spec fn clean_state_id(self) -> u64 {
        self.clean_state_id
    }

    pub closed spec fn next_state_id(self) -> u64 {
        self.next_state_id
    }
}

/// Line `l` of `s` without a final LF.
pub open spec fn line_text_of(s: Seq<char>, l: nat) -> Seq<char> {
    let c = line_chars(s, l);
    if c.len() > 0 && c[c.len() - 1] == '\n' {
        c.drop_last()
    } else {
        c
    }
}

/// The title of the nearest heading at or above line `l`.
pub open spec fn section_at(s: Seq<char>, l: int) -> Option<Seq<char>>
    decreases l + 1,
{
    if l < 0 {
        None
    } else {
        match heading_of(line_chars(s, l as nat)) {
            Some((_, title)) => Some(title),
            None => section_at(s, l - 1),
        }
    }
}

/// `a + b`, capped at `max`.
pub open spec fn capped_sum(a: int, b: int, max: int) -> int {
    if a + b <= max {
        a + b
    } else {
        max
    }
}

impl Buffer {
    /// The chars of the buffer.
    pub open spec fn text(self) -> Seq<char> {
        rope_text(self.rope)
    }

    /// The char index that the cursor stands for.
    pub open spec fn cursor_index(self) -> int {
        position_index(self.text(), self.cursor.line as nat, self.cursor.col as nat)
    }

    /// A counter that changes with every change of the text.
    pub open spec fn revision(self) -> u64 {
        self.states.revision()
    }

    /// The identity of the current text state.
    pub open spec fn state_id(self) -> u64 {
        self.states.state_id()
    }

    /// The identity of the state that matches the file on disk.
    pub open spec fn clean_state_id(self) -> u64 {
        self.states.clean_state_id()
    }

    /// The identity that the next new state gets.
    pub open spec fn next_state_id(self) -> u64 {
        self.states.next_state_id()
    }

    /// `snap` holds the text, cursor and state of `b`.
    pub open spec fn snapshot_matches(snap: Snapshot, b: Buffer) -> bool {
        &&& rope_text(snap.content) == b.text()
        &&& snap.cursor_line == b.cursor.line
        &&& snap.cursor_col == b.cursor.col
        &&& snap.state_id == b.state_id()
    }

    /// The fields that no edit touches.
    pub open spec fn same_place(a: Buffer, b: Buffer) -> bool {
        &&& a.scroll_offset == b.scroll_offset
        &&& a.path == b.path
        &&& a.display_name == b.display_name
    }

    /// A snapshot of `before` was pushed on the undo history.
    pub open spec fn snapshot_recorded(before: Buffer, after: Buffer) -> bool {
        let snap = after.undo_stack.undo_entries().last();
        &&& UndoStack::pushed(before.undo_stack, snap, after.undo_stack)
        &&& Self::snapshot_matches(snap, before)
    }

    /// The text reached a new state: a fresh identity, and dirty unless that
    /// identity is the clean one.
    pub open spec fn new_state_recorded(before: Buffer, after: Buffer) -> bool {
        &&& after.revision() == before.revision().wrapping_add(1)
        &&& after.state_id() == before.next_state_id()
        &&& after.next_state_id() == before.next_state_id().wrapping_add(1)
        &&& after.clean_state_id() == before.clean_state_id()
        &&& after.dirty == (after.state_id() != after.clean_state_id())
    }

    /// What `insert_text` does: the text goes in at the cursor, the cursor
    /// goes just after it, and the edit can be undone.
    pub open spec fn inserted(before: Buffer, text: Seq<char>, after: Buffer) -> bool {
        if text.len() == 0 {
            after == before
        } else {
            let idx = before.cursor_index();
            let s = after.text();
            let new_idx = idx + text.len();
            &&& s == before.text().subrange(0, idx) + text + before.text().subrange(
                idx,
                before.text().len() as int,
            )
            &&& after.cursor.line == breaks_before(s, new_idx)
            &&& after.cursor.col == new_idx - line_start(s, after.cursor.line as nat)
            &&& position_index(s, after.cursor.line as nat, after.cursor.col as nat) == new_idx
            &&& Self::snapshot_recorded(before, after)
            &&& Self::new_state_recorded(before, after)
            &&& Self::same_place(before, after)
        }
    }

    /// The buffer took back the state that `snap` holds.
    pub open spec fn restored(before: Buffer, snap: Snapshot, after: Buffer) -> bool {
        &&& after.text() == rope_text(snap.content)
        &&& after.cursor.line == snap.cursor_line
        &&& after.cursor.col == snap.cursor_col
        &&& after.state_id() == snap.state_id
        &&& after.revision() == before.revision().wrapping_add(1)
        &&& after.next_state_id() == before.next_state_id()
        &&& after.clean_state_id() == before.clean_state_id()
        &&& after.dirty == (after.state_id() != after.clean_state_id())
        &&& Self::same_place(before, after)
    }

    /// Nothing but the undo history's storage changed.
    pub open spec fn kept(before: Buffer, after: Buffer) -> bool {
        &&& after.rope == before.rope
        &&& after.cursor == before.cursor
        &&& after.dirty == before.dirty
        &&& after.revision() == before.revision()
        &&& after.state_id() == before.state_id()
        &&& after.next_state_id() == before.next_state_id()
        &&& after.clean_state_id() == before.clean_state_id()
        &&& after.undo_stack.undo_entries() == before.undo_stack.undo_entries()
        &&& after.undo_stack.redo_entries() == before.undo_stack.redo_entries()
        &&& Self::same_place(before, after)
    }

    /// What `undo` does: bring back the latest undo entry and keep the
    /// current state for redo.
    pub open spec fn undone(before: Buffer, after: Buffer) -> bool {
        if before.undo_stack.undo_entries().len() > 0 {
            let snap = before.undo_stack.undo_entries().last();
            let current = after.undo_stack.redo_entries().last();
            &&& UndoStack::undone(before.undo_stack, current, after.undo_stack, Some(snap))
            &&& Self::snapshot_matches(current, before)
            &&& Self::restored(before, snap, after)
        } else {
            Self::kept(before, after)
        }
    }

    /// What `redo` does: bring back the latest redo entry and keep the
    /// current state for undo.
    pub open spec fn redone(before: Buffer, after: Buffer) -> bool {
        if before.undo_stack.redo_entries().len() > 0 {
            let snap = before.undo_stack.redo_entries().last();
            let current = after.undo_stack.undo_entries().last();
            &&& UndoStack::redone(before.undo_stack, current, after.undo_stack, Some(snap))
            &&& Self::snapshot_matches(current, before)
            &&& Self::restored(before, snap, after)
        } else {
            Self::kept(before, after)
        }
    }

    /// What `backspace` does.
    pub open spec fn backspaced(before: Buffer, after: Buffer) -> bool {
        if before.cursor_index() == 0 {
            after == before
        } else {
            let idx = before.cursor_index();
            &&& after.text() == before.text().remove(idx - 1)
            &&& moved_left(before.text(), before.cursor, after.cursor)
            &&& Self::snapshot_recorded(before, after)
            &&& Self::new_state_recorded(before, after)
            &&& Self::same_place(before, after)
        }
    }

    /// What `delete` does.
    pub open spec fn deleted(before: Buffer, after: Buffer) -> bool {
        if before.cursor_index() >= before.text().len() {
            after == before
        } else {
            &&& after.text() == before.text().remove(before.cursor_index())
            &&& after.cursor == before.cursor
            &&& Self::snapshot_recorded(before, after)
            &&& Self::new_state_recorded(before, after)
            &&& Self::same_place(before, after)
        }
    }

    /// Only the cursor and the scroll offset may differ.
    pub open spec fn same_but_view(before: Buffer, after: Buffer) -> bool {
        &&& after.rope == before.rope
        &&& after.dirty == before.dirty
        &&& after.path == before.path
        &&& after.display_name == before.display_name
        &&& after.states == before.states
        &&& after.undo_stack == before.undo_stack
    }

    /// What `page_up` does with a page of `height` rows.
    pub open spec fn paged_up(before: Buffer, height: nat, after: Buffer) -> bool {
        let jump = if height >= 2 { height - 2 } else { 0 };
        &&& after.cursor.line == if before.cursor.line >= jump {
            before.cursor.line - jump
        } else {
            0
        }
        &&& after.cursor.col == clamped_col(before.text(), after.cursor.line as nat, before.cursor.col as nat)
        &&& after.scroll_offset == if before.scroll_offset >= jump {
            before.scroll_offset - jump
        } else {
            0
        }
        &&& Self::same_but_view(before, after)
    }

    /// What `page_down` does with a page of `height` rows.
    pub open spec fn paged_down(before: Buffer, height: nat, after: Buffer) -> bool {
        let jump = if height >= 2 { height - 2 } else { 0 };
        let max_line = last_line(before.text()) as int;
        &&& after.cursor.line == capped_sum(before.cursor.line as int, jump as int, max_line)
        &&& after.cursor.col == clamped_col(before.text(), after.cursor.line as nat, before.cursor.col as nat)
        &&& after.scroll_offset == capped_sum(before.scroll_offset as int, jump as int, max_line)
        &&& Self::same_but_view(before, after)
    }

    /// A buffer over loaded text: cursor at the start, clean, no history.
    pub fn new(rope: Rope, path: PathBuf, display_name: String) -> (b: Self)
        ensures
            b.rope == rope,
            b.path == path,
            b.display_name == display_name,
            b.cursor.line == 0 && b.cursor.col == 0,
            b.scroll_offset == 0,
            !b.dirty,
            b.revision() == 0,
            b.state_id() == 0,
            b.clean_state_id() == 0,
            b.next_state_id() == 1,
            b.undo_stack.undo_entries() == Seq::<Snapshot>::empty(),
            b.undo_stack.redo_entries() == Seq::<Snapshot>::empty(),
            dirty_follows_state(b),
    {
        Self {
            rope,
            cursor: Cursor::new(),
            scroll_offset: 0,
            dirty: false,
            path,
            display_name,
            states: StateIds { revision: 0, state_id: 0, clean_state_id: 0, next_state_id: 1 },
            undo_stack: UndoStack::new(),
        }
    }

    pub fn content_revision(&self) -> (r: u64)
        ensures
            r == self.revision(),
    {
        self.states.revision
    }

    /// Takes text that matches the file on disk: a new state that is clean.
    pub fn replace_synced_content(&mut self, rope: Rope)
        ensures
            final(self).rope == rope,
            final(self).revision() == old(self).revision().wrapping_add(1),
            final(self).state_id() == old(self).next_state_id(),
            final(self).next_state_id() == old(self).next_state_id().wrapping_add(1),
            final(self).clean_state_id() == final(self).state_id(),
            !final(self).dirty,
            final(self).cursor == old(self).cursor,
            final(self).undo_stack == old(self).undo_stack,
            Self::same_place(*old(self), *final(self)),
    {
        self.rope = rope;
        self.record_new_state();
        self.mark_clean();
    }

    pub fn save_snapshot(&mut self)
        ensures
            Self::snapshot_recorded(*old(self), *final(self)),
            final(self).rope == old(self).rope,
            final(self).cursor == old(self).cursor,
            final(self).dirty == old(self).dirty,
            final(self).revision() == old(self).revision(),
            final(self).state_id() == old(self).state_id(),
            final(self).next_state_id() == old(self).next_state_id(),
            final(self).clean_state_id() == old(self).clean_state_id(),
            Self::same_place(*old(self), *final(self)),
    {
        let snap = self.current_snapshot();
        self.undo_stack.push(snap);
    }

    pub fn undo(&mut self)
        ensures
            Self::undone(*old(self), *final(self)),
    {
        let current = self.current_snapshot();
        if let Some(snap) = self.undo_stack.undo(current) {
            self.restore_snapshot(snap);
        }
    }

    pub fn redo(&mut self)
        ensures
            Self::redone(*old(self), *final(self)),
    {
        let current = self.current_snapshot();
        if let Some(snap) = self.undo_stack.redo(current) {
            self.restore_snapshot(snap);
        }
    }

    pub fn insert_char(&mut self, ch: char)
        ensures
            Self::inserted(*old(self), seq![ch], *final(self)),
    {
        let mut s = String::new();
        string_push(&mut s, ch);
        assert(s@ =~= seq![ch]);
        self.insert_text(s.as_str());
    }

    /// Inserts `text` at the cursor and puts the cursor just after it.
    pub fn insert_text(&mut self, text: &str)
        ensures
            Self::inserted(*old(self), text@, *final(self)),
    {
        if text.is_empty() {
            return;
        }
        self.save_snapshot();
        let idx = self.cursor.char_index(&self.rope);
        let old_len = self.rope.len_chars();
        self.rope.insert(idx, text);
        let new_idx = idx + (self.rope.len_chars() - old_len);
        proof {
            lemma_line_of_index(rope_text(self.rope), new_idx as int);
        }
        self.cursor.line = self.rope.char_to_line(new_idx);
        self.cursor.col = new_idx - self.rope.line_to_char(self.cursor.line);
        proof {
            let s = rope_text(self.rope);
            let l = self.cursor.line as nat;
            lemma_line_start(s, l);
            assert(l <= last_line(s));
        }
        self.record_new_state();
    }

    /// Removes the char before the cursor and moves the cursor back over it.
    pub fn backspace(&mut self)
        ensures
            Self::backspaced(*old(self), *final(self)),
    {
        let idx = self.cursor.char_index(&self.rope);
        if idx == 0 {
            return;
        }
        self.save_snapshot();
        self.cursor.move_left(&self.rope);
        rope_remove(&mut self.rope, idx - 1, idx);
        assert(rope_text(self.rope) =~= old(self).text().remove(idx - 1));
        self.record_new_state();
    }

    /// Removes the char at the cursor; the cursor stays.
    pub fn delete(&mut self)
        ensures
            Self::deleted(*old(self), *final(self)),
    {
        let idx = self.cursor.char_index(&self.rope);
        if idx >= self.rope.len_chars() {
            return;
        }
        self.save_snapshot();
        rope_remove(&mut self.rope, idx, idx + 1);
        assert(rope_text(self.rope) =~= old(self).text().remove(idx as int));
        self.record_new_state();
    }

    pub fn paste(&mut self, text: &str)
        ensures
            Self::inserted(*old(self), text@, *final(self)),
    {
        self.insert_text(text);
    }

    /// Line `line_idx` without its final LF.
    pub fn line_text(&self, line_idx: usize) -> (s: String)
        requires
            line_idx < line_count(self.text()),
        ensures
            s@ == line_text_of(self.text(), line_idx as nat),
    {
        let mut chars = rope_line(&self.rope, line_idx);
        let n = chars.len();
        if n > 0 && chars[n - 1] == '\n' {
            chars.pop();
        }
        chars_to_string(&chars)
    }

    /// Moves the cursor and the view up by a page of `height` rows, less two.
    pub fn page_up(&mut self, height: usize)
        ensures
            Self::paged_up(*old(self), height as nat, *final(self)),
    {
        let jump = height.saturating_sub(2);
        self.cursor.line = self.cursor.line.saturating_sub(jump);
        self.cursor.clamp_col(&self.rope);
        self.scroll_offset = self.scroll_offset.saturating_sub(jump);
    }

    /// Moves the cursor and the view down by a page of `height` rows, less
    /// two, stopping at the last line.
    pub fn page_down(&mut self, height: usize)
        ensures
            Self::paged_down(*old(self), height as nat, *final(self)),
    {
        let jump = height.saturating_sub(2);
        let max_line = self.rope.len_lines() - 1;
        self.cursor.line = cap_sum(self.cursor.line, jump, max_line);
        self.cursor.clamp_col(&self.rope);
        self.scroll_offset = cap_sum(self.scroll_offset, jump, max_line);
    }

    /// The lines from the scroll offset on, `height` of them at most, each
    /// with its index and without its final LF.
    pub fn visible_lines(&self, height: usize) -> (lines: Vec<(usize, String)>)
        ensures
            lines@.len() == if self.scroll_offset < line_count(self.text()) {
                capped_sum(self.scroll_offset as int, height as int, line_count(self.text()) as int) - self.scroll_offset
            } else {
                0
            },
            forall|k: int|
                0 <= k < lines@.len() ==> #[trigger] lines@[k].0 == self.scroll_offset + k
                    && lines@[k].1@ == line_text_of(self.text(), (self.scroll_offset + k) as nat),
    {
        let total = self.rope.len_lines();
        let start = self.scroll_offset;
        let end = cap_sum(start, height, total);
        let mut lines: Vec<(usize, String)> = Vec::new();
        let mut i = start;
        while i < end
            invariant
                start <= i <= end || (end < start && i == start),
                end <= total == line_count(self.text()),
                start == self.scroll_offset,
                lines@.len() == i - start,
                forall|k: int|
                    0 <= k < lines@.len() ==> #[trigger] lines@[k].0 == start + k
                        && lines@[k].1@ == line_text_of(self.text(), (start + k) as nat),
            decreases end - i,
        {
            let text = self.line_text(i);
            lines.push((i, text));
            i += 1;
        }
        lines
    }

    /// Scrolls just enough for the cursor's line to be among `height` rows.
    pub fn adjust_scroll(&mut self, height: usize)
        requires
            height > 0 || old(self).cursor.line < usize::MAX,
        ensures
            final(self).scroll_offset == if old(self).cursor.line < old(self).scroll_offset {
                if height == 0 { old(self).cursor.line + 1 } else { old(self).cursor.line as int }
            } else if old(self).cursor.line >= old(self).scroll_offset + height {
                old(self).cursor.line - height + 1
            } else {
                old(self).scroll_offset as int
            },
            *final(self) == (Buffer { scroll_offset: final(self).scroll_offset, ..*old(self) }),
    {
        if self.cursor.line < self.scroll_offset {
            self.scroll_offset = self.cursor.line;
        }
        if self.cursor.line - self.scroll_offset >= height {
            self.scroll_offset = self.cursor.line - height + 1;
        }
    }

    /// The title of the nearest heading at or above the cursor's line.
    pub fn current_section(&self) -> (section: Option<String>)
        ensures
            match section {
                Some(t) => section_at(self.text(), self.cursor_line_clamped()) == Some(t@),
                None => section_at(self.text(), self.cursor_line_clamped()) is None,
            },
    {
        let last = self.rope.len_lines() - 1;
        let lim = if self.cursor.line < last {
            self.cursor.line
        } else {
            last
        };
        let mut i = lim + 1;
        while i > 0
            invariant
                i <= lim + 1,
                lim <= last,
                last + 1 == line_count(self.text()),
                lim == self.cursor_line_clamped(),
                section_at(self.text(), lim as int) == section_at(self.text(), i - 1),
            decreases i,
        {
            i -= 1;
            let line = rope_line(&self.rope, i);
            if let Some((_, heading)) = parse_heading(&line) {
                return Some(heading);
            }
        }
        None
    }

    /// The cursor's line, at most the last line.
    pub open spec fn cursor_line_clamped(self) -> int {
        if self.cursor.line <= last_line(self.text()) {
            self.cursor.line as int
        } else {
            last_line(self.text()) as int
        }
    }

    /// The level and title of line `line_idx` if it is a heading.
    pub fn heading_at(&self, line_idx: usize) -> (h: Option<(usize, String)>)
        requires
            line_idx < line_count(self.text()),
        ensures
            match h {
                Some((level, title)) => heading_of(line_chars(self.text(), line_idx as nat)) == Some((level as nat, title@)),
                None => heading_of(line_chars(self.text(), line_idx as nat)) is None,
            },
    {
        let line = rope_line(&self.rope, line_idx);
        parse_heading(&line)
    }

    /// What `mark_clean` does: the current state becomes the saved one.
    pub open spec fn marked_clean(before: Buffer, after: Buffer) -> bool {
        &&& after.clean_state_id() == before.state_id()
        &&& !after.dirty
        &&& after.rope == before.rope
        &&& after.cursor == before.cursor
        &&& after.revision() == before.revision()
        &&& after.state_id() == before.state_id()
        &&& after.next_state_id() == before.next_state_id()
        &&& after.undo_stack == before.undo_stack
        &&& Self::same_place(before, after)
    }

    /// Records that the text now matches the file on disk.
    pub fn mark_clean(&mut self)
        ensures
            Self::marked_clean(*old(self), *final(self)),
    {
        self.states.clean_state_id = self.states.state_id;
        self.dirty = false;
    }

    fn current_snapshot(&self) -> (snap: Snapshot)
        ensures
            Self::snapshot_matches(snap, *self),
    {
        Snapshot {
            content: self.rope.clone(),
            cursor_line: self.cursor.line,
            cursor_col: self.cursor.col,
            state_id: self.states.state_id,
        }
    }

    fn restore_snapshot(&mut self, snapshot: Snapshot)
        ensures
            Self::restored(*old(self), snapshot, *final(self)),
            final(self).undo_stack == old(self).undo_stack,
    {
        self.rope = snapshot.content;
        self.cursor.line = snapshot.cursor_line;
        self.cursor.col = snapshot.cursor_col;
        self.states.state_id = snapshot.state_id;
        self.states.revision = self.states.revision.wrapping_add(1);
        self.sync_dirty();
    }

    fn record_new_state(&mut self)
        ensures
            Self::new_state_recorded(*old(self), *final(self)),
            final(self).rope == old(self).rope,
            final(self).cursor == old(self).cursor,
            final(self).undo_stack == old(self).undo_stack,
            Self::same_place(*old(self), *final(self)),
    {
        self.states.revision = self.states.revision.wrapping_add(1);
        self.states.state_id = self.states.next_state_id;
        self.states.next_state_id = self.states.next_state_id.wrapping_add(1);
        self.sync_dirty();
    }

    fn sync_dirty(&mut self)
        ensures
            final(self).dirty == (old(self).state_id() != old(self).clean_state_id()),
            final(self).rope == old(self).rope,
            final(self).cursor == old(self).cursor,
            final(self).revision() == old(self).revision(),
            final(self).state_id() == old(self).state_id(),
            final(self).next_state_id() == old(self).next_state_id(),
            final(self).clean_state_id() == old(self).clean_state_id(),
            final(self).undo_stack == old(self).undo_stack,
            Self::same_place(*old(self), *final(self)),
    {
        self.dirty = self.states.state_id != self.states.clean_state_id;
    }
}

/// Undoing an insertion brings back the text, the cursor and the state from
/// before it, so the buffer is dirty exactly when it was before.
pub proof fn law_undo_reverts_insert(b0: Buffer, text: Seq<char>, b1: Buffer, b2: Buffer)
    requires
        text.len() > 0,
        Buffer::inserted(b0, text, b1),
        Buffer::undone(b1, b2),
    ensures
        b2.text() == b0.text(),
        b2.cursor.line == b0.cursor.line,
        b2.cursor.col == b0.cursor.col,
        b2.state_id() == b0.state_id(),
        b2.clean_state_id() == b0.clean_state_id(),
        b2.dirty == (b0.state_id() != b0.clean_state_id()),
{
    assert(b1.undo_stack.undo_entries().len() > 0);
}

/// Redoing what was just undone brings back the text, the cursor and the
/// state from before the undo.
pub proof fn law_redo_reverts_undo(b0: Buffer, b1: Buffer, b2: Buffer)
    requires
        b0.undo_stack.undo_entries().len() > 0,
        Buffer::undone(b0, b1),
        Buffer::redone(b1, b2),
    ensures
        b2.text() == b0.text(),
        b2.cursor.line == b0.cursor.line,
        b2.cursor.col == b0.cursor.col,
        b2.state_id() == b0.state_id(),
        b2.clean_state_id() == b0.clean_state_id(),
        b2.dirty == (b0.state_id() != b0.clean_state_id()),
        b2.undo_stack.undo_entries().len() == b0.undo_stack.undo_entries().len(),
        b2.undo_stack.redo_entries() == b0.undo_stack.redo_entries(),
{
    assert(b1.undo_stack.redo_entries().len() > 0);
    assert(b0.undo_stack.redo_entries().push(b1.undo_stack.redo_entries().last()).drop_last()
        =~= b0.undo_stack.redo_entries());
}

/// An insertion makes the buffer dirty, as long as the fresh identity it
/// gets is not the saved one (which only a wrap of the counter can cause).
pub proof fn law_insert_makes_dirty(b0: Buffer, text: Seq<char>, b1: Buffer)
    requires
        text.len() > 0,
        b0.next_state_id() != b0.clean_state_id(),
        Buffer::inserted(b0, text, b1),
    ensures
        b1.dirty,
{
}

/// Saving, editing and undoing the edit leaves the buffer clean and with the
/// saved text; redoing the edit makes it dirty again.
pub proof fn law_undo_to_saved_state_is_clean(
    b0: Buffer,
    b1: Buffer,
    text: Seq<char>,
    b2: Buffer,
    b3: Buffer,
    b4: Buffer,
)
    requires
        b0.next_state_id() != b0.state_id(),
        Buffer::marked_clean(b0, b1),
        text.len() > 0,
        Buffer::inserted(b1, text, b2),
        Buffer::undone(b2, b3),
        Buffer::redone(b3, b4),
    ensures
        !b3.dirty,
        b3.text() == b0.text(),
        b4.dirty,
        b4.text() == b2.text(),
{
    law_undo_reverts_insert(b1, text, b2, b3);
    assert(b2.undo_stack.undo_entries().len() > 0);
    law_redo_reverts_undo(b2, b3, b4);
}

/// Backspace right after typing a char takes that char out again.
pub proof fn law_backspace_removes_typed_char(b0: Buffer, c: char, b1: Buffer, b2: Buffer)
    requires
        Buffer::inserted(b0, seq![c], b1),
        Buffer::backspaced(b1, b2),
    ensures
        b2.text() == b0.text(),
{
    let idx = b0.cursor_index();
    crate::lines::lemma_position_index_bounds(b0.text(), b0.cursor.line as nat, b0.cursor.col as nat);
    assert(b1.cursor_index() == idx + 1);
    assert(b1.text().remove(idx) =~= b0.text());
}

/// The dirty flag says whether the text's state differs from the saved one.
pub open spec fn dirty_follows_state(b: Buffer) -> bool {
    b.dirty == (b.state_id() != b.clean_state_id())
}

/// Every edit, undo, redo, save and paging keeps the dirty flag in step with
/// the saved state; most of them set it from the states alone.
pub proof fn law_dirty_follows_saved_state(b0: Buffer, text: Seq<char>, height: nat, b1: Buffer)
    requires
        dirty_follows_state(b0),
    ensures
        Buffer::inserted(b0, text, b1) ==> dirty_follows_state(b1),
        Buffer::backspaced(b0, b1) ==> dirty_follows_state(b1),
        Buffer::deleted(b0, b1) ==> dirty_follows_state(b1),
        Buffer::undone(b0, b1) ==> dirty_follows_state(b1),
        Buffer::redone(b0, b1) ==> dirty_follows_state(b1),
        Buffer::marked_clean(b0, b1) ==> dirty_follows_state(b1),
        Buffer::paged_up(b0, height, b1) ==> dirty_follows_state(b1),
        Buffer::paged_down(b0, height, b1) ==> dirty_follows_state(b1),
{
}

/// In a text whose only line break is LF, backspace from a cursor on the
/// text takes the cursor's char index back by one.  (With CR or another
/// break char before the cursor, removing a char can merge or split line
/// breaks, and the cursor then lands elsewhere.)
pub proof fn law_backspace_moves_index_back(b0: Buffer, b1: Buffer)
    requires
        only_lf_breaks(b0.text()),
        b0.cursor.line < line_count(b0.text()),
        b0.cursor.col <= line_len(b0.text(), b0.cursor.line as nat),
        b0.cursor_index() > 0,
        Buffer::backspaced(b0, b1),
    ensures
        b1.cursor_index() == b0.cursor_index() - 1,
{
    let s = b0.text();
    let ln = b0.cursor.line as nat;
    let col = b0.cursor.col as int;
    let a = line_start(s, ln);
    lemma_line_start(s, ln);
    crate::lines::lemma_line_len_bounds(s, ln);
    let p = a + col - 1;
    assert(b0.cursor_index() == a + col);
    let t = s.remove(p);
    assert(b1.text() == t);
    lemma_remove_keeps_breaks_before(s, p, p);
    lemma_breaks_before_bounds(t, 0, t.len() as int);
    if col > 0 {
        // The cursor stays on its line, one char back.
        if ln + 1 < line_count(s) {
            let c = line_chars(s, ln);
            assert(c[c.len() - 1] == s[line_start(s, ln + 1) - 1]);
            assert(s[line_start(s, ln + 1) - 1] == '\n');
        }
        lemma_no_break_same_count(s, a, p);
        assert(breaks_before(t, p) == ln);
        if ln > 0 {
            lemma_remove_keeps_breaks_before(s, p, a);
            assert(t[a - 1] == s[a - 1]);
            lemma_breaks_before_bounds(t, a, t.len() as int);
            lemma_line_start_unique(t, ln, a);
        }
        lemma_line_of_index(t, p);
    } else {
        // The cursor goes to the end of the line above, where the removed
        // LF was.
        assert(ln > 0);
        let lp = (ln - 1) as nat;
        lemma_line_start(s, lp);
        let a2 = line_start(s, lp);
        assert(s[p] == '\n');
        assert(breaks_before(s, a) == breaks_before(s, p) + 1);
        assert(line_len(s, lp) == p - a2);
        if lp > 0 {
            lemma_remove_keeps_breaks_before(s, p, a2);
            assert(t[a2 - 1] == s[a2 - 1]);
            lemma_breaks_before_bounds(t, a2, t.len() as int);
            lemma_line_start_unique(t, lp, a2);
        }
        lemma_line_of_index(t, p);
    }
}

/// The section at line `l` is the title of the nearest heading, of any
/// level, on line `l` or above it: a heading on line `j <= l` with no
/// heading on the lines after it up to `l` gives its title, and with no
/// heading on lines `0..=l` there is no section.
pub proof fn law_section_is_nearest_heading(s: Seq<char>, l: int, j: int, level: nat, title: Seq<char>)
    requires
        0 <= j <= l,
        forall|m: int| j < m <= l ==> (#[trigger] heading_of(line_chars(s, m as nat))) is None,
    ensures
        heading_of(line_chars(s, j as nat)) == Some((level, title)) ==> section_at(s, l) == Some(title),
        (forall|m: int| 0 <= m <= l ==> (#[trigger] heading_of(line_chars(s, m as nat))) is None)
            ==> section_at(s, l) is None,
    decreases l,
{
    if l > j {
        law_section_is_nearest_heading(s, l - 1, j, level, title);
        assert(heading_of(line_chars(s, l as nat)) is None);
    }
    lemma_no_heading_no_section(s, l);
}

proof fn lemma_no_heading_no_section(s: Seq<char>, l: int)
    ensures
        (forall|m: int| 0 <= m <= l ==> (#[trigger] heading_of(line_chars(s, m as nat))) is None)
            ==> section_at(s, l) is None,
    decreases l + 1,
{
    if l >= 0 {
        lemma_no_heading_no_section(s, l - 1);
        if forall|m: int| 0 <= m <= l ==> (#[trigger] heading_of(line_chars(s, m as nat))) is None {
            assert(heading_of(line_chars(s, l as nat)) is None);
        }
    }
}

/// `a + b`, capped at `max`, without overflow.
fn cap_sum(a: usize, b: usize, max: usize) -> (r: usize)
    ensures
        r == capped_sum(a as int, b as int, max as int),
{
    if a <= max && b <= max - a {
        a + b
    } else {
        max
    }
}


/// The name a buffer shows for its file: the file's name, or "untitled"
/// for a path without one.
pub fn display_name_for(file_name: Option<String>) -> (name: String)
    ensures
        name@ == match file_name {
            Some(n) => n@,
            None => "untitled"@,
        },
{
    match file_name {
        Some(n) => n,
        None => crate::strings::to_owned_string("untitled"),
    }
}

/// A buffer over a file as it was found: its text when the file exists, no
/// text when it does not yet, and the file's name ("untitled" without one);
/// the cursor at the start, clean, with no history.
pub fn loaded_buffer(contents: Option<Rope>, path: PathBuf, file_name: Option<String>) -> (b: Buffer)
    ensures
        b.text() == match contents {
            Some(r) => rope_text(r),
            None => Seq::<char>::empty(),
        },
        b.path == path,
        b.display_name@ == match file_name {
            Some(n) => n@,
            None => "untitled"@,
        },
        b.cursor.line == 0 && b.cursor.col == 0,
        b.scroll_offset == 0,
        !b.dirty,
        b.revision() == 0,
        b.state_id() == b.clean_state_id(),
        b.undo_stack.undo_entries() == Seq::<Snapshot>::empty(),
        b.undo_stack.redo_entries() == Seq::<Snapshot>::empty(),
{
    let rope = match contents {
        Some(r) => r,
        None => Rope::new(),
    };
    Buffer::new(rope, path, display_name_for(file_name))
}

} // verus!
