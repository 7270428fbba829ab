//! The line model of a text: where lines break and where each line starts.
//!
//! A line ends just after a line break.  The breaks are LF, VT, FF, NEL,
//! LINE SEPARATOR, PARAGRAPH SEPARATOR, a CR that is not followed by an
//! LF, and the pair CR LF (which counts once, at its LF).

use vstd::prelude::*;

verus! {

/// Whether `c` ends a line on its own (CR is handled separately).
pub open spec fn is_simple_break(c: char) -> bool {
    c == '\n' || c == '\u{0B}' || c == '\u{0C}' || c == '\u{85}' || c == '\u{2028}'
        || c == '\u{2029}'
}

/// Whether the char at index `i` is the last char of a line break.
pub open spec fn is_break_end(s: Seq<char>, i: int) -> bool {
    0 <= i < s.len() && (is_simple_break(s[i]) || (s[i] == '\r' && (i + 1 == s.len() || s[i
        + 1] != '\n')))
}

/// The number of line breaks that end before index `n`.
pub open spec fn breaks_before(s: Seq<char>, n: int) -> nat
    decreases n,
{
    if n <= 0 {
        0
    } else {
        breaks_before(s, n - 1) + if is_break_end(s, n - 1) {
            1nat
        } else {
            0nat
        }
    }
}

/// The number of lines of `s`: one more than its number of line breaks.
pub open spec fn line_count(s: Seq<char>) -> nat {
    breaks_before(s, s.len() as int) + 1
}

/// The first index at or after `i` that ends a line break, or `s.len()`.
pub open spec fn first_break_from(s: Seq<char>, i: int) -> int
    decreases s.len() - i,
{
    if i >= s.len() {
        s.len() as int
    } else if i < 0 {
        first_break_from(s, 0)
    } else if is_break_end(s, i) {
        i
    } else {
        first_break_from(s, i + 1)
    }
}

/// The index of the first char of line `l`; `s.len()` for `l == line_count(s)`.
pub open spec fn line_start(s: Seq<char>, l: nat) -> int
    decreases l,
{
    if l == 0 {
        0
    } else {
        let p = first_break_from(s, line_start(s, (l - 1) as nat));
        if p < s.len() {
            p + 1
        } else {
            s.len() as int
        }
    }
}

/// The chars of line `l`, its line break included.
pub open spec fn line_chars(s: Seq<char>, l: nat) -> Seq<char> {
    s.subrange(line_start(s, l), line_start(s, l + 1))
}

/// The length of line `l` without a final LF (a CR before it is kept);
/// 0 for a line past the end.
pub open spec fn line_len(s: Seq<char>, l: nat) -> nat {
    if l >= line_count(s) {
        0
    } else {
        let c = line_chars(s, l);
        if c.len() > 0 && c[c.len() - 1] == '\n' {
            (c.len() - 1) as nat
        } else {
            c.len()
        }
    }
}

/// The index of the last line.
pub open spec fn last_line(s: Seq<char>) -> nat {
    (line_count(s) - 1) as nat
}

/// The char index that a (line, column) position stands for, with the line
/// clamped to the last line and the column to the line's length.
pub open spec fn position_index(s: Seq<char>, line: nat, col: nat) -> int {
    let l = if line <= last_line(s) {
        line
    } else {
        last_line(s)
    };
    line_start(s, l) + if col <= line_len(s, l) {
        col
    } else {
        line_len(s, l)
    }
}

pub proof fn lemma_breaks_before_bounds(s: Seq<char>, a: int, b: int)
    requires
        0 <= a <= b,
    ensures
        breaks_before(s, a) <= breaks_before(s, b),
        breaks_before(s, b) <= breaks_before(s, a) + (b - a),
    decreases b - a,
{
    if a < b {
        lemma_breaks_before_bounds(s, a, b - 1);
    }
}

/// Without a break in `[a, b)` the counts at `a` and `b` agree.
pub proof fn lemma_no_break_same_count(s: Seq<char>, a: int, b: int)
    requires
        0 <= a <= b,
        forall|j: int| a <= j < b ==> !is_break_end(s, j),
    ensures
        breaks_before(s, a) == breaks_before(s, b),
    decreases b - a,
{
    if a < b {
        lemma_no_break_same_count(s, a, b - 1);
    }
}

pub proof fn lemma_first_break_from(s: Seq<char>, i: int)
    requires
        0 <= i <= s.len(),
    ensures
        i <= first_break_from(s, i) <= s.len(),
        first_break_from(s, i) < s.len() ==> is_break_end(s, first_break_from(s, i)),
        forall|j: int| i <= j < first_break_from(s, i) ==> !is_break_end(s, j),
    decreases s.len() - i,
{
    if i < s.len() && !is_break_end(s, i) {
        lemma_first_break_from(s, i + 1);
    }
}

/// A break lies in `[a, b)` whenever the count grows from `a` to `b`.
pub proof fn lemma_count_grows_has_break(s: Seq<char>, a: int, b: int)
    requires
        0 <= a <= b <= s.len(),
        breaks_before(s, a) < breaks_before(s, b),
    ensures
        first_break_from(s, a) < b,
{
    lemma_first_break_from(s, a);
    if first_break_from(s, a) >= b {
        lemma_no_break_same_count(s, a, b);
    }
}

/// The shape of every line: where it starts, that it starts after a break,
/// and that only its last char can end a break.
pub proof fn lemma_line_start(s: Seq<char>, l: nat)
    requires
        l < line_count(s),
    ensures
        0 <= line_start(s, l) <= line_start(s, l + 1) <= s.len(),
        breaks_before(s, line_start(s, l)) == l,
        l > 0 ==> is_break_end(s, line_start(s, l) - 1),
        l + 1 < line_count(s) ==> line_start(s, l) < line_start(s, l + 1) && is_break_end(
            s,
            line_start(s, l + 1) - 1,
        ),
        l + 1 < line_count(s) ==> forall|j: int|
            line_start(s, l) <= j < line_start(s, l + 1) - 1 ==> !is_break_end(s, j),
        l + 1 == line_count(s) ==> line_start(s, l + 1) == s.len(),
        l + 1 == line_count(s) ==> forall|j: int|
            line_start(s, l) <= j < s.len() ==> !is_break_end(s, j),
    decreases l,
{
    let a = line_start(s, l);
    if l == 0 {
        assert(a == 0);
    } else {
        let prev = (l - 1) as nat;
        lemma_line_start(s, prev);
        lemma_no_break_same_count(s, line_start(s, prev), a - 1);
        assert(breaks_before(s, a) == breaks_before(s, a - 1) + 1);
    }
    lemma_first_break_from(s, a);
    let p = first_break_from(s, a);
    lemma_no_break_same_count(s, a, p);
    lemma_breaks_before_bounds(s, a, s.len() as int);
    if l + 1 < line_count(s) {
        lemma_count_grows_has_break(s, a, s.len() as int);
        assert(breaks_before(s, p + 1) == l + 1);
    } else {
        if p < s.len() {
            lemma_breaks_before_bounds(s, p + 1, s.len() as int);
            assert(breaks_before(s, p + 1) == l + 1);
            assert(false);
        }
    }
}

/// The line holding char index `i` is the number of breaks before `i`, and
/// `i` lies within that line, at most at its break.
pub proof fn lemma_line_of_index(s: Seq<char>, i: int)
    requires
        0 <= i <= s.len(),
    ensures
        breaks_before(s, i) < line_count(s),
        line_start(s, breaks_before(s, i)) <= i,
        breaks_before(s, i) + 1 < line_count(s) ==> i < line_start(s, breaks_before(s, i) + 1),
        i - line_start(s, breaks_before(s, i)) <= line_len(s, breaks_before(s, i)),
{
    let l = breaks_before(s, i);
    lemma_breaks_before_bounds(s, i, s.len() as int);
    lemma_line_start(s, l);
    let a = line_start(s, l);
    let b = line_start(s, l + 1);
    if i < a {
        lemma_breaks_before_bounds(s, i + 1, a);
        assert(breaks_before(s, a) >= breaks_before(s, i + 1));
        lemma_breaks_before_bounds(s, i + 1, a - 1);
        lemma_breaks_before_bounds(s, i, a - 1);
        assert(breaks_before(s, a) == breaks_before(s, a - 1) + 1);
        assert(false);
    }
    if l + 1 < line_count(s) {
        lemma_line_start(s, l + 1);
        if i >= b {
            lemma_breaks_before_bounds(s, b, i);
            assert(false);
        }
    } else {
        if b > a && s[b - 1] == '\n' {
            assert(is_break_end(s, b - 1));
            assert(false);
        }
    }
}

/// A line's length without its final LF stays within the line.
pub proof fn lemma_line_len_bounds(s: Seq<char>, l: nat)
    requires
        l < line_count(s),
    ensures
        0 <= line_start(s, l),
        line_start(s, l) + line_len(s, l) <= line_start(s, l + 1) <= s.len(),
        line_len(s, l) <= line_chars(s, l).len(),
{
    lemma_line_start(s, l);
}

/// A valid position's index lies within the text.
pub proof fn lemma_position_index_bounds(s: Seq<char>, line: nat, col: nat)
    ensures
        0 <= position_index(s, line, col) <= s.len(),
{
    let l = if line <= last_line(s) {
        line
    } else {
        last_line(s)
    };
    lemma_line_len_bounds(s, l);
}

/// A text whose only line break is LF.
pub open spec fn only_lf_breaks(s: Seq<char>) -> bool {
    forall|i: int| 0 <= i < s.len() ==> #[trigger] s[i] != '\r' && (is_simple_break(s[i]) ==> s[i] == '\n')
}

/// Removing a char from a text with only LF breaks leaves the breaks before
/// it where they were.
pub proof fn lemma_remove_keeps_breaks_before(s: Seq<char>, p: int, n: int)
    requires
        only_lf_breaks(s),
        0 <= p < s.len(),
        n <= p,
    ensures
        breaks_before(s.remove(p), n) == breaks_before(s, n),
        only_lf_breaks(s.remove(p)),
    decreases n,
{
    let t = s.remove(p);
    assert forall|i: int| 0 <= i < t.len() implies #[trigger] t[i] != '\r' && (is_simple_break(t[i]) ==> t[i]
        == '\n') by {
        if i < p {
            assert(t[i] == s[i]);
        } else {
            assert(t[i] == s[i + 1]);
        }
    }
    if n > 0 {
        lemma_remove_keeps_breaks_before(s, p, n - 1);
        assert(t[n - 1] == s[n - 1]);
    }
}

/// Only the start of line `l` follows a break and has `l` breaks before it.
pub proof fn lemma_line_start_unique(s: Seq<char>, l: nat, a: int)
    requires
        l < line_count(s),
        0 < a <= s.len(),
        is_break_end(s, a - 1),
        breaks_before(s, a) == l,
    ensures
        line_start(s, l) == a,
{
    lemma_line_start(s, l);
    let b = line_start(s, l);
    if l == 0 {
        lemma_breaks_before_bounds(s, 0, a - 1);
        assert(breaks_before(s, a) == breaks_before(s, a - 1) + 1);
        assert(false);
    }
    if a < b {
        lemma_breaks_before_bounds(s, a, b - 1);
        assert(breaks_before(s, b) == breaks_before(s, b - 1) + 1);
        assert(false);
    }
    if b < a {
        lemma_breaks_before_bounds(s, b, a - 1);
        assert(breaks_before(s, a) == breaks_before(s, a - 1) + 1);
        assert(false);
    }
}

} // verus!
