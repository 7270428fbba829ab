//! What this library relies on of `ropey::Rope`, stated over the rope's text.

use vstd::prelude::*;
use ropey::Rope;
use crate::lines::{breaks_before, line_chars, line_count, line_start};

verus! {

/// `ropey::Rope`, made known to Verus as an opaque type; what it holds is
/// spoken of through `rope_text` below.
#[verifier::external_type_specification]
#[verifier::external_body]
pub struct ExRope(ropey::Rope);

/// The chars that a rope holds, in order.
pub uninterp spec fn rope_text(r: Rope) -> Seq<char>;

/// `Rope::new` makes an empty rope.
pub assume_specification[ ropey::Rope::new ]() -> (r: Rope)
    ensures
        rope_text(r) == Seq::<char>::empty(),
;

/// `Rope::from_str` makes a rope that holds the chars of `text`.
pub assume_specification[ ropey::Rope::from_str ](text: &str) -> (r: Rope)
    ensures
        rope_text(r) == text@,
;

/// A clone of a rope holds the same chars.
pub assume_specification[ <ropey::Rope as Clone>::clone ](r: &Rope) -> (res: Rope)
    ensures
        rope_text(res) == rope_text(*r),
;

/// `Rope::len_chars` counts the rope's chars.
pub assume_specification[ ropey::Rope::len_chars ](r: &Rope) -> (n: usize)
    ensures
        n == rope_text(*r).len(),
;

/// `Rope::len_lines` is one more than the number of line breaks.
pub assume_specification[ ropey::Rope::len_lines ](r: &Rope) -> (n: usize)
    ensures
        n == line_count(rope_text(*r)),
;

/// `Rope::insert` puts `text` at char index `char_idx`; it panics past the end.
pub assume_specification[ ropey::Rope::insert ](r: &mut Rope, char_idx: usize, text: &str)
    requires
        char_idx <= rope_text(*old(r)).len(),
    ensures
        rope_text(*final(r)) == rope_text(*old(r)).subrange(0, char_idx as int) + text@
            + rope_text(*old(r)).subrange(char_idx as int, rope_text(*old(r)).len() as int),
;

/// `Rope::char_to_line` counts the line breaks before the char index; it
/// panics past one-past-the-end.
pub assume_specification[ ropey::Rope::char_to_line ](r: &Rope, char_idx: usize) -> (line: usize)
    requires
        char_idx <= rope_text(*r).len(),
    ensures
        line == breaks_before(rope_text(*r), char_idx as int),
;

/// `Rope::line_to_char` gives the index of the first char of the line, and
/// the rope's length for one-past-the-last line; it panics beyond that.
pub assume_specification[ ropey::Rope::line_to_char ](r: &Rope, line_idx: usize) -> (idx: usize)
    requires
        line_idx <= line_count(rope_text(*r)),
    ensures
        idx == line_start(rope_text(*r), line_idx as nat),
;

/// Calls `Rope::remove` on the char range `start..end`, which drops those
/// chars; it panics on a range that is reversed or past the end.
#[verifier::external_body]
pub fn rope_remove(r: &mut Rope, start: usize, end: usize)
    requires
        start <= end <= rope_text(*old(r)).len(),
    ensures
        rope_text(*final(r)) == rope_text(*old(r)).subrange(0, start as int) + rope_text(
            *old(r),
        ).subrange(end as int, rope_text(*old(r)).len() as int),
{
    r.remove(start..end)
}

/// Calls `Rope::line` and collects the chars of that line, its line break
/// included; it panics for a line past the last.
#[verifier::external_body]
pub fn rope_line(r: &Rope, line_idx: usize) -> (chars: Vec<char>)
    requires
        line_idx < line_count(rope_text(*r)),
    ensures
        chars@ == line_chars(rope_text(*r), line_idx as nat),
{
    r.line(line_idx).chars().collect()
}

/// Compares the rope with a string through `PartialEq<&str> for Rope`,
/// which compares their chars.
#[verifier::external_body]
pub fn rope_eq_str(r: &Rope, s: &str) -> (eq: bool)
    ensures
        eq == (rope_text(*r) == s@),
{
    *r == s
}

/// Renders the rope through its `Display` impl, which writes its chunks in order.
#[verifier::external_body]
pub fn rope_to_string(r: &Rope) -> (s: String)
    ensures
        s@ == rope_text(*r),
{
    r.to_string()
}

} // verus!
