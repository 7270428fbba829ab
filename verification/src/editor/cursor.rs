//! A (line, column) cursor over a rope, with columns counted in chars.

use vstd::prelude::*;
use ropey::Rope;
use crate::lines::{last_line, line_count, line_len, position_index};
use crate::ropes::{rope_line, rope_text};

verus! {

#[derive(Debug, Clone)]
pub struct Cursor {
    pub line: usize,
    pub col: usize,
}

/// `col` clamped to the length of `line` in `s`.
pub open spec fn clamped_col(s: Seq<char>, line: nat, col: nat) -> nat {
    if col <= line_len(s, line) {
        col
    } else {
        line_len(s, line)
    }
}

/// What moving one line up does on text `s`.
pub open spec fn moved_up(s: Seq<char>, before: Cursor, after: Cursor) -> bool {
    if before.line > 0 {
        after.line == before.line - 1 && after.col == clamped_col(s, after.line as nat, before.col as nat)
    } else {
        after == before
    }
}

/// What moving one line down does on text `s`.
pub open spec fn moved_down(s: Seq<char>, before: Cursor, after: Cursor) -> bool {
    if before.line + 1 < line_count(s) {
        after.line == before.line + 1 && after.col == clamped_col(s, after.line as nat, before.col as nat)
    } else {
        after == before
    }
}

/// What moving one char back does on text `s`.
pub open spec fn moved_left(s: Seq<char>, before: Cursor, after: Cursor) -> bool {
    if before.col > 0 {
        after.line == before.line && after.col == before.col - 1
    } else if before.line > 0 {
        after.line == before.line - 1 && after.col == line_len(s, after.line as nat)
    } else {
        after == before
    }
}

/// What moving one char forward does on text `s`.
pub open spec fn moved_right(s: Seq<char>, before: Cursor, after: Cursor) -> bool {
    if before.col < line_len(s, before.line as nat) {
        after.line == before.line && after.col == before.col + 1
    } else if before.line + 1 < line_count(s) {
        after.line == before.line + 1 && after.col == 0
    } else {
        after == before
    }
}

impl Cursor {
    pub fn new() -> (c: Self)
        ensures
            c.line == 0,
            c.col == 0,
    {
        Self { line: 0, col: 0 }
    }

    /// Brings the cursor onto the text: the last line at most, and a column
    /// within its line.
    pub fn clamp(&mut self, rope: &Rope)
        ensures
            final(self).line == if old(self).line <= last_line(rope_text(*rope)) {
                old(self).line as nat
            } else {
                last_line(rope_text(*rope))
            },
            final(self).col == clamped_col(rope_text(*rope), final(self).line as nat, old(self).col as nat),
    {
        let last = last_line_index(rope);
        if self.line > last {
            self.line = last;
        }
        self.clamp_col(rope);
    }

    pub fn move_up(&mut self, rope: &Rope)
        ensures
            moved_up(rope_text(*rope), *old(self), *final(self)),
    {
        if self.line > 0 {
            self.line -= 1;
            self.clamp_col(rope);
        }
    }

    pub fn move_down(&mut self, rope: &Rope)
        ensures
            moved_down(rope_text(*rope), *old(self), *final(self)),
    {
        if self.line < rope.len_lines() - 1 {
            self.line += 1;
            self.clamp_col(rope);
        }
    }

    /// One char back: within the line, or to the end of the line above.
    pub fn move_left(&mut self, rope: &Rope)
        ensures
            moved_left(rope_text(*rope), *old(self), *final(self)),
    {
        if self.col > 0 {
            self.col -= 1;
        } else if self.line > 0 {
            self.line -= 1;
            self.col = line_len_of(rope, self.line);
        }
    }

    /// One char forward: within the line, or to the start of the line below.
    pub fn move_right(&mut self, rope: &Rope)
        ensures
            moved_right(rope_text(*rope), *old(self), *final(self)),
    {
        let len = line_len_of(rope, self.line);
        if self.col < len {
            self.col += 1;
        } else if self.line < rope.len_lines() - 1 {
            self.line += 1;
            self.col = 0;
        }
    }

    pub fn move_home(&mut self)
        ensures
            final(self).line == old(self).line,
            final(self).col == 0,
    {
        self.col = 0;
    }

    pub fn move_end(&mut self, rope: &Rope)
        ensures
            final(self).line == old(self).line,
            final(self).col == line_len(rope_text(*rope), old(self).line as nat),
    {
        self.col = line_len_of(rope, self.line);
    }

    /// Pulls the column back to the end of the cursor's line if it lies beyond.
    pub fn clamp_col(&mut self, rope: &Rope)
        ensures
            final(self).line == old(self).line,
            final(self).col == clamped_col(rope_text(*rope), old(self).line as nat, old(self).col as nat),
    {
        let len = line_len_of(rope, self.line);
        if self.col > len {
            self.col = len;
        }
    }

    /// The char index that the cursor stands for, with its line and column
    /// clamped to the text.
    pub fn char_index(&self, rope: &Rope) -> (idx: usize)
        ensures
            idx == position_index(rope_text(*rope), self.line as nat, self.col as nat),
            idx <= rope_text(*rope).len(),
    {
        proof {
            crate::lines::lemma_position_index_bounds(rope_text(*rope), self.line as nat, self.col as nat);
        }
        let last = last_line_index(rope);
        let line = if self.line < last {
            self.line
        } else {
            last
        };
        proof {
            crate::lines::lemma_line_len_bounds(rope_text(*rope), line as nat);
        }
        let _total = rope.len_chars();
        let line_start_idx = rope.line_to_char(line);
        let len = line_len_of(rope, line);
        if self.col < len {
            line_start_idx + self.col
        } else {
            line_start_idx + len
        }
    }
}

/// The index of the rope's last line.
pub fn last_line_index(rope: &Rope) -> (l: usize)
    ensures
        l == last_line(rope_text(*rope)),
{
    rope.len_lines() - 1
}

/// The length of a line without its final LF; 0 for a line past the end.
pub fn line_len_of(rope: &Rope, line: usize) -> (len: usize)
    ensures
        len == line_len(rope_text(*rope), line as nat),
{
    if line >= rope.len_lines() {
        return 0;
    }
    let chars = rope_line(rope, line);
    let len = chars.len();
    if len > 0 && chars[len - 1] == '\n' {
        len - 1
    } else {
        len
    }
}

} // verus!
