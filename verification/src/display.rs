//! Soft wrapping of lines to the width of the screen, by display columns.

use vstd::prelude::*;
use unicode_width::UnicodeWidthChar;

use crate::editor::buffer::{line_text_of, Buffer};
use crate::lines::line_count;
use crate::strings::{chars_to_string, str_to_chars};

verus! {

/// The columns that `unicode-width` gives a char; `None` for a control char.
pub uninterp spec fn char_display_width(c: char) -> Option<usize>;

/// Calls `UnicodeWidthChar::width` on a char; what it returns depends on
/// the char alone.
#[verifier::external_body]
fn char_width(c: char) -> (w: Option<usize>)
    ensures
        w == char_display_width(c),
{
    UnicodeWidthChar::width(c)
}

/// The columns a char takes on screen, 0 for a control char.
pub open spec fn columns(c: char) -> nat {
    match char_display_width(c) {
        Some(w) => w as nat,
        None => 0,
    }
}

/// The columns of the first `n` chars of `t`.
pub open spec fn columns_upto(t: Seq<char>, n: nat) -> nat
    decreases n,
{
    if n == 0 || n > t.len() {
        0
    } else {
        columns_upto(t, (n - 1) as nat) + columns(t[n - 1])
    }
}

/// After the first `n` chars of `t`: the full rows, the row being filled,
/// and the columns it takes.  A char that would overflow a non-empty row
/// starts the next one.
pub open spec fn wrap_state(t: Seq<char>, width: nat, n: nat) -> (Seq<Seq<char>>, Seq<char>, nat)
    decreases n,
{
    if n == 0 || n > t.len() {
        (Seq::empty(), Seq::empty(), 0)
    } else {
        let prev = wrap_state(t, width, (n - 1) as nat);
        let c = t[n - 1];
        if prev.2 + columns(c) > width && prev.1.len() > 0 {
            (prev.0.push(prev.1), seq![c], columns(c))
        } else {
            (prev.0, prev.1.push(c), prev.2 + columns(c))
        }
    }
}

/// The screen rows that `t` takes at `width` columns; a zero width or an
/// empty text gives one row.
pub open spec fn display_rows(t: Seq<char>, width: nat) -> Seq<Seq<char>> {
    if width == 0 || t.len() == 0 {
        seq![t]
    } else {
        let st = wrap_state(t, width, t.len());
        st.0.push(st.1)
    }
}

/// The rows, joined back together.
pub open spec fn joined(rows: Seq<Seq<char>>) -> Seq<char>
    decreases rows.len(),
{
    if rows.len() == 0 {
        Seq::empty()
    } else {
        joined(rows.drop_last()) + rows.last()
    }
}

proof fn lemma_wrap_state_joins(t: Seq<char>, width: nat, n: nat)
    requires
        n <= t.len(),
    ensures
        joined(wrap_state(t, width, n).0) + wrap_state(t, width, n).1 == t.take(n as int),
        n > 0 ==> wrap_state(t, width, n).1.len() > 0,
    decreases n,
{
    if n > 0 {
        lemma_wrap_state_joins(t, width, (n - 1) as nat);
        let prev = wrap_state(t, width, (n - 1) as nat);
        let c = t[n - 1];
        assert(t.take(n as int) =~= t.take(n - 1).push(c));
        if prev.2 + columns(c) > width && prev.1.len() > 0 {
            assert(prev.0.push(prev.1).drop_last() =~= prev.0);
            assert(joined(prev.0.push(prev.1)) + seq![c] =~= joined(prev.0) + prev.1 + seq![c]);
        } else {
            assert(joined(prev.0) + prev.1.push(c) =~= joined(prev.0) + prev.1 + seq![c]);
        }
    }
}

/// Soft wrapping loses and adds nothing: the rows join back into the line.
pub proof fn law_display_rows_join_to_line(t: Seq<char>, width: nat)
    ensures
        joined(display_rows(t, width)) == t,
        display_rows(t, width).len() >= 1,
{
    if width == 0 || t.len() == 0 {
        assert(seq![t].drop_last() =~= Seq::<Seq<char>>::empty());
        assert(joined(Seq::<Seq<char>>::empty()) == Seq::<char>::empty());
        assert(Seq::<char>::empty() + t =~= t);
    } else {
        lemma_wrap_state_joins(t, width, t.len());
        let st = wrap_state(t, width, t.len());
        assert(st.0.push(st.1).drop_last() =~= st.0);
        assert(joined(st.0.push(st.1)) == joined(st.0) + st.1);
        assert(t.take(t.len() as int) =~= t);
    }
}

/// The columns a row of chars takes.
pub open spec fn row_columns(r: Seq<char>) -> nat
    decreases r.len(),
{
    if r.len() == 0 {
        0
    } else {
        row_columns(r.drop_last()) + columns(r.last())
    }
}

proof fn lemma_row_columns_push(r: Seq<char>, c: char)
    ensures
        row_columns(r.push(c)) == row_columns(r) + columns(c),
{
    assert(r.push(c).drop_last() =~= r);
}

/// The shape that soft wrapping keeps after each char: every row holds a
/// char, the row being filled takes `st.2` columns, a row of several chars
/// fits the width, and each full row is full: the first char of the next
/// row would not have fitted on it.
spec fn wrap_shape(st: (Seq<Seq<char>>, Seq<char>, nat), width: nat) -> bool {
    &&& forall|k: int| 0 <= k < st.0.len() ==> (#[trigger] st.0[k]).len() > 0
    &&& st.1.len() > 0
    &&& st.2 == row_columns(st.1)
    &&& forall|k: int| 0 <= k < st.0.len() ==> row_columns(#[trigger] st.0[k]) <= width || st.0[k].len() == 1
    &&& row_columns(st.1) <= width || st.1.len() == 1
    &&& forall|k: int|
        0 <= k < st.0.len() - 1 ==> row_columns(#[trigger] st.0[k]) + columns(st.0[k + 1][0]) > width
    &&& st.0.len() > 0 ==> row_columns(st.0.last()) + columns(st.1[0]) > width
}

proof fn lemma_wrap_shape(t: Seq<char>, width: nat, n: nat)
    requires
        0 < n <= t.len(),
    ensures
        wrap_shape(wrap_state(t, width, n), width),
    decreases n,
{
    let c = t[n - 1];
    let st = wrap_state(t, width, n);
    if n == 1 {
        assert(wrap_state(t, width, 0) == (Seq::<Seq<char>>::empty(), Seq::<char>::empty(), 0nat));
        lemma_row_columns_push(Seq::<char>::empty(), c);
        assert(seq![c] =~= Seq::<char>::empty().push(c));
        assert(st.0 =~= Seq::<Seq<char>>::empty());
    } else {
        lemma_wrap_shape(t, width, (n - 1) as nat);
        let prev = wrap_state(t, width, (n - 1) as nat);
        if prev.2 + columns(c) > width && prev.1.len() > 0 {
            lemma_row_columns_push(Seq::<char>::empty(), c);
            assert(seq![c] =~= Seq::<char>::empty().push(c));
            assert forall|k: int| 0 <= k < st.0.len() - 1 implies row_columns(#[trigger] st.0[k])
                + columns(st.0[k + 1][0]) > width by {
                if k + 1 < prev.0.len() {
                    assert(st.0[k] == prev.0[k] && st.0[k + 1] == prev.0[k + 1]);
                } else {
                    assert(st.0[k] == prev.0.last() && st.0[k + 1] == prev.1);
                }
            }
        } else {
            lemma_row_columns_push(prev.1, c);
            assert(prev.1.push(c)[0] == prev.1[0]);
        }
    }
}

/// Soft wrapping fills rows greedily: no row is empty, a row of several
/// chars fits the width, and every row but the last is full, so the first
/// char of the next row would not have fitted on it.
pub proof fn law_display_rows_fill_greedily(t: Seq<char>, width: nat)
    requires
        width > 0,
        t.len() > 0,
    ensures
        forall|k: int| 0 <= k < display_rows(t, width).len() ==> (#[trigger] display_rows(t, width)[k]).len() > 0,
        forall|k: int|
            0 <= k < display_rows(t, width).len() ==> row_columns(#[trigger] display_rows(t, width)[k]) <= width
                || display_rows(t, width)[k].len() == 1,
        forall|k: int|
            0 <= k < display_rows(t, width).len() - 1 ==> row_columns(#[trigger] display_rows(t, width)[k])
                + columns(display_rows(t, width)[k + 1][0]) > width,
{
    lemma_wrap_shape(t, width, t.len());
    let st = wrap_state(t, width, t.len());
    let rows = display_rows(t, width);
    assert(rows == st.0.push(st.1));
    assert forall|k: int| 0 <= k < rows.len() - 1 implies row_columns(#[trigger] rows[k])
        + columns(rows[k + 1][0]) > width by {
        if k + 1 < st.0.len() {
            assert(rows[k] == st.0[k] && rows[k + 1] == st.0[k + 1]);
        } else {
            assert(rows[k] == st.0.last() && rows[k + 1] == st.1);
        }
    }
    assert forall|k: int| 0 <= k < rows.len() implies (#[trigger] rows[k]).len() > 0 && (row_columns(rows[k])
        <= width || rows[k].len() == 1) by {
        if k < st.0.len() {
            assert(rows[k] == st.0[k]);
        } else {
            assert(rows[k] == st.1);
        }
    }
}

/// Splits a line into the rows it takes on a screen `width` columns wide.
pub fn split_line_for_display(text: &str, width: usize) -> (rows: Vec<String>)
    ensures
        rows@.len() == display_rows(text@, width as nat).len(),
        forall|i: int| 0 <= i < rows@.len() ==> (#[trigger] rows@[i])@ == display_rows(text@, width as nat)[i],
{
    let chars = str_to_chars(text);
    let n = chars.len();
    let mut rows: Vec<String> = Vec::new();
    if width == 0 || n == 0 {
        rows.push(chars_to_string(&chars));
        return rows;
    }
    let mut current: Vec<char> = Vec::new();
    let mut current_width: usize = 0;
    let mut i: usize = 0;
    while i < n
        invariant
            i <= n == chars@.len(),
            chars@ == text@,
            width > 0,
            ({
                let st = wrap_state(text@, width as nat, i as nat);
                &&& rows@.len() == st.0.len()
                &&& forall|k: int| 0 <= k < rows@.len() ==> (#[trigger] rows@[k])@ == st.0[k]
                &&& current@ == st.1
                &&& current_width == st.2
            }),
            current@.len() == 0 ==> current_width == 0,
            current@.len() > 0 ==> current_width <= width || current@.len() == 1,
        decreases n - i,
    {
        let c = chars[i];
        let cw = match char_width(c) {
            Some(w) => w,
            None => 0,
        };
        if current.len() > 0 && (current_width > width || cw > width - current_width) {
            rows.push(chars_to_string(&current));
            current = Vec::new();
            current.push(c);
            current_width = cw;
        } else {
            current.push(c);
            current_width = current_width + cw;
        }
        i += 1;
    }
    rows.push(chars_to_string(&current));
    rows
}

impl Buffer {
    /// How many screen rows line `i` takes at `width` columns.
    pub fn visual_rows_for_line(&self, i: usize, width: usize) -> (n: usize)
        requires
            i < line_count(self.text()),
        ensures
            n == display_rows(line_text_of(self.text(), i as nat), width as nat).len(),
    {
        let text = self.line_text(i);
        split_line_for_display(text.as_str(), width).len()
    }

    /// The screen column of the cursor within its line (the line clamped to
    /// the last one, the column to the line's length), capped at the largest
    /// `usize`.
    pub fn cursor_display_col(&self) -> (col: usize)
        ensures
            col == capped(self.cursor_columns()),
    {
        let last = self.rope.len_lines() - 1;
        let line = if self.cursor.line < last {
            self.cursor.line
        } else {
            last
        };
        let text = self.line_text(line);
        let chars = str_to_chars(text.as_str());
        let end = if self.cursor.col < chars.len() {
            self.cursor.col
        } else {
            chars.len()
        };
        let mut sum: usize = 0;
        let mut k: usize = 0;
        while k < end
            invariant
                k <= end <= chars@.len(),
                chars@ == line_text_of(self.text(), line as nat),
                line as int == self.cursor_line_clamped(),
                end == self.cursor_col_in_line(),
                sum == capped(columns_upto(chars@, k as nat) as int),
            decreases end - k,
        {
            let cw = match char_width(chars[k]) {
                Some(w) => w,
                None => 0,
            };
            sum = sum.saturating_add(cw);
            k += 1;
        }
        sum
    }

    /// The cursor's column within its line, at most the line's length.
    pub open spec fn cursor_col_in_line(self) -> int {
        let t = line_text_of(self.text(), self.cursor_line_clamped() as nat);
        if self.cursor.col < t.len() {
            self.cursor.col as int
        } else {
            t.len() as int
        }
    }

    /// The screen columns before the cursor within its line.
    pub open spec fn cursor_columns(self) -> int {
        columns_upto(
            line_text_of(self.text(), self.cursor_line_clamped() as nat),
            self.cursor_col_in_line() as nat,
        ) as int
    }
}

/// How many screen rows line `l` of `s` takes at `width` columns.
pub open spec fn visual_rows(s: Seq<char>, l: int, width: nat) -> nat {
    display_rows(line_text_of(s, l as nat), width).len()
}

/// How many screen rows lines `a` up to (not including) `b` take.
pub open spec fn rows_between(s: Seq<char>, a: int, b: int, width: nat) -> int
    decreases b - a,
{
    if b <= a {
        0
    } else {
        rows_between(s, a, b - 1, width) + visual_rows(s, b - 1, width)
    }
}

proof fn lemma_rows_between_nonneg(s: Seq<char>, a: int, b: int, width: nat)
    ensures
        rows_between(s, a, b, width) >= 0,
    decreases b - a,
{
    if b > a {
        lemma_rows_between_nonneg(s, a, b - 1, width);
    }
}

/// The first scroll offset from `from` on at which the cursor, on line
/// `line` and `wrap` rows into it, lands among the `height` rows shown (or
/// the cursor's own line, if none before it does).
pub open spec fn first_fitting_scroll(
    s: Seq<char>,
    from: int,
    line: int,
    wrap: int,
    height: int,
    width: nat,
) -> int
    decreases line - from,
{
    if from >= line || rows_between(s, from, line, width) + wrap < height {
        from
    } else {
        first_fitting_scroll(s, from + 1, line, wrap, height, width)
    }
}

/// The scroll offset that `adjust_scroll` gives for `height` rows.
pub open spec fn scroll_for_line(scroll: int, line: int, height: int) -> int {
    if line < scroll {
        if height == 0 {
            line + 1
        } else {
            line
        }
    } else if line >= scroll + height {
        line - height + 1
    } else {
        scroll
    }
}

impl Buffer {
    /// The scroll offset that `adjust_scroll_wrapped` gives for `height`
    /// rows of `width` columns.
    pub open spec fn wrapped_scroll(b: Buffer, height: nat, width: nat) -> int {
        let from = scroll_for_line(b.scroll_offset as int, b.cursor.line as int, height as int);
        let wrap = if width > 0 {
            capped(b.cursor_columns()) / (width as usize)
        } else {
            0
        };
        first_fitting_scroll(b.text(), from, b.cursor_line_clamped(), wrap as int, height as int, width)
    }

    /// The screen rows that lines `a` up to `b` take, capped at the largest `usize`.
    fn rows_between_capped(&self, a: usize, b: usize, width: usize) -> (n: usize)
        requires
            a <= b <= line_count(self.text()),
        ensures
            n == capped(rows_between(self.text(), a as int, b as int, width as nat)),
    {
        let mut sum: usize = 0;
        let mut k = a;
        while k < b
            invariant
                a <= k <= b <= line_count(self.text()),
                sum == capped(rows_between(self.text(), a as int, k as int, width as nat)),
            decreases b - k,
        {
            let rows = self.visual_rows_for_line(k, width);
            proof {
                lemma_rows_between_nonneg(self.text(), a as int, k as int, width as nat);
                assert(rows_between(self.text(), a as int, k + 1, width as nat) == rows_between(
                    self.text(),
                    a as int,
                    k as int,
                    width as nat,
                ) + rows);
            }
            sum = sum.saturating_add(rows);
            k += 1;
        }
        sum
    }

    /// Scrolls so that the cursor's screen row is among `height` rows of a
    /// screen `width` columns wide: first by whole lines, then forward
    /// while the wrapped rows above the cursor push it off the screen.
    pub fn adjust_scroll_wrapped(&mut self, height: usize, width: usize)
        requires
            height > 0 || old(self).cursor.line < usize::MAX,
        ensures
            final(self).scroll_offset == Self::wrapped_scroll(*old(self), height as nat, width as nat),
            *final(self) == (Buffer { scroll_offset: final(self).scroll_offset, ..*old(self) }),
    {
        self.adjust_scroll(height);
        let last = self.rope.len_lines() - 1;
        let line = if self.cursor.line < last {
            self.cursor.line
        } else {
            last
        };
        let wrap = if width > 0 {
            self.cursor_display_col() / width
        } else {
            0
        };
        let ghost from = self.scroll_offset as int;
        let mut fits = false;
        while !fits && self.scroll_offset < line
            invariant
                line as int == self.cursor_line_clamped(),
                line < line_count(self.text()),
                *self == (Buffer { scroll_offset: self.scroll_offset, ..*old(self) }),
                from == scroll_for_line(old(self).scroll_offset as int, old(self).cursor.line as int, height as int),
                wrap == if width > 0 { capped(old(self).cursor_columns()) / width } else { 0 },
                from <= self.scroll_offset,
                fits ==> first_fitting_scroll(self.text(), from, line as int, wrap as int, height as int, width as nat) == self.scroll_offset,
                !fits ==> first_fitting_scroll(self.text(), from, line as int, wrap as int, height as int, width as nat)
                    == first_fitting_scroll(self.text(), self.scroll_offset as int, line as int, wrap as int, height as int, width as nat),
            decreases line - self.scroll_offset, if fits { 0int } else { 1int },
        {
            let above = self.rows_between_capped(self.scroll_offset, line, width);
            proof {
                lemma_rows_between_nonneg(self.text(), self.scroll_offset as int, line as int, width as nat);
            }
            if above.saturating_add(wrap) < height {
                fits = true;
            } else {
                self.scroll_offset = self.scroll_offset + 1;
            }
        }
    }
}

/// `x`, capped at the largest `usize`.
pub open spec fn capped(x: int) -> usize {
    if x < usize::MAX {
        x as usize
    } else {
        usize::MAX
    }
}

} // verus!
