//! A line diff between the buffer and the file on disk.

use vstd::prelude::*;
use similar::{ChangeTag, TextDiff};
use crate::strings::{chars_to_string, str_to_chars};

verus! {

#[derive(Debug, Clone)]
pub struct DiffLine {
    pub tag: DiffTag,
    pub text: String,
}

#[derive(Debug, Clone, Copy, PartialEq, Eq, Structural)]
pub enum DiffTag {
    Equal,
    Insert,
    Delete,
}

/// The changes that `similar`'s line diff (Myers, no deadline) finds from
/// `old` to `new`, each with its tag and its line as the change renders it.
pub uninterp spec fn line_diff(old: Seq<char>, new: Seq<char>) -> Seq<(DiffTag, Seq<char>)>;

/// Runs `TextDiff::from_lines` and lists `iter_all_changes`, each change's
/// tag converted one for one and its text as its `Display` renders it.
#[verifier::external_body]
fn similar_line_changes(old: &str, new: &str) -> (changes: Vec<DiffLine>)
    ensures
        changes@.len() == line_diff(old@, new@).len(),
        forall|i: int|
            0 <= i < changes@.len() ==> (#[trigger] changes@[i]).tag == line_diff(old@, new@)[i].0
                && changes@[i].text@ == line_diff(old@, new@)[i].1,
{
    let diff = TextDiff::from_lines(old, new);
    let mut changes = Vec::new();
    for change in diff.iter_all_changes() {
        let tag = match change.tag() {
            ChangeTag::Equal => DiffTag::Equal,
            ChangeTag::Insert => DiffTag::Insert,
            ChangeTag::Delete => DiffTag::Delete,
        };
        changes.push(DiffLine { tag, text: change.to_string() });
    }
    changes
}

/// `s` without one final LF.
pub open spec fn without_final_newline(s: Seq<char>) -> Seq<char> {
    if s.len() > 0 && s.last() == '\n' {
        s.drop_last()
    } else {
        s
    }
}

/// The diff lines as shown: each change keeps its tag and loses one final
/// LF from its text.
pub fn diff_lines_from_changes(changes: &Vec<DiffLine>) -> (lines: Vec<DiffLine>)
    ensures
        lines@.len() == changes@.len(),
        forall|i: int|
            0 <= i < lines@.len() ==> (#[trigger] lines@[i]).tag == changes@[i].tag
                && lines@[i].text@ == without_final_newline(changes@[i].text@),
{
    let mut lines: Vec<DiffLine> = Vec::new();
    let mut i: usize = 0;
    while i < changes.len()
        invariant
            i <= changes@.len(),
            lines@.len() == i,
            forall|j: int|
                0 <= j < i ==> (#[trigger] lines@[j]).tag == changes@[j].tag
                    && lines@[j].text@ == without_final_newline(changes@[j].text@),
        decreases changes@.len() - i,
    {
        let mut chars = str_to_chars(changes[i].text.as_str());
        let n = chars.len();
        if n > 0 && chars[n - 1] == '\n' {
            chars.pop();
        }
        lines.push(DiffLine { tag: changes[i].tag, text: chars_to_string(&chars) });
        i += 1;
    }
    lines
}

/// The line diff from `old` to `new`, each line without its final LF.
pub fn compute_diff(old: &str, new: &str) -> (lines: Vec<DiffLine>)
    ensures
        lines@.len() == line_diff(old@, new@).len(),
        forall|i: int|
            0 <= i < lines@.len() ==> (#[trigger] lines@[i]).tag == line_diff(old@, new@)[i].0
                && lines@[i].text@ == without_final_newline(line_diff(old@, new@)[i].1),
{
    let changes = similar_line_changes(old, new);
    let lines = diff_lines_from_changes(&changes);
    assert forall|i: int| 0 <= i < lines@.len() implies (#[trigger] lines@[i]).tag == line_diff(old@, new@)[i].0
        && lines@[i].text@ == without_final_newline(line_diff(old@, new@)[i].1) by {
        assert(changes@[i].tag == line_diff(old@, new@)[i].0);
    }
    lines
}

/// Whether some line of the diff is not an equal one.
pub fn has_changes(diff_lines: &[DiffLine]) -> (b: bool)
    ensures
        b == exists|i: int| 0 <= i < diff_lines@.len() && diff_lines@[i].tag != DiffTag::Equal,
{
    let mut i: usize = 0;
    while i < diff_lines.len()
        invariant
            i <= diff_lines@.len(),
            forall|j: int| 0 <= j < i ==> diff_lines@[j].tag == DiffTag::Equal,
        decreases diff_lines@.len() - i,
    {
        if diff_lines[i].tag != DiffTag::Equal {
            return true;
        }
        i += 1;
    }
    false
}

} // verus!
