//! Recognising Markdown constructs in a single line of text.

use vstd::prelude::*;
use crate::strings::{
    is_unicode_whitespace, lemma_trim_whitespace_prefix, skip_whitespace, trim_chars, trim_spec,
    trim_start_spec,
};

verus! {

/// A space or a tab.
pub open spec fn is_blank_char(c: char) -> bool {
    c == ' ' || c == '\t'
}

/// The first index at or after `i` whose char is not a space or tab.
pub open spec fn skip_blanks(s: Seq<char>, i: int) -> int
    decreases s.len() - i,
{
    if 0 <= i < s.len() && is_blank_char(s[i]) {
        skip_blanks(s, i + 1)
    } else {
        i
    }
}

/// The first index at or after `i` whose char is not `c`.
pub open spec fn skip_char(s: Seq<char>, i: int, c: char) -> int
    decreases s.len() - i,
{
    if 0 <= i < s.len() && s[i] == c {
        skip_char(s, i + 1, c)
    } else {
        i
    }
}

/// The first index at or after `i` whose char is not a space, tab or LF.
pub open spec fn skip_leading(s: Seq<char>, i: int) -> int
    decreases s.len() - i,
{
    if 0 <= i < s.len() && (is_blank_char(s[i]) || s[i] == '\n') {
        skip_leading(s, i + 1)
    } else {
        i
    }
}

/// `s` with every LF taken out.
pub open spec fn without_newlines(s: Seq<char>) -> Seq<char>
    decreases s.len(),
{
    if s.len() == 0 {
        s
    } else if s.last() == '\n' {
        without_newlines(s.drop_last())
    } else {
        without_newlines(s.drop_last()).push(s.last())
    }
}

/// The chars of a line that its Markdown shape is read from: the spaces and
/// tabs before its first other char are dropped, and so is every LF.
pub open spec fn content_chars(s: Seq<char>) -> Seq<char> {
    without_newlines(s.subrange(skip_leading(s, 0), s.len() as int))
}

/// A heading line: optional spaces and tabs, one or more `#`, then the title,
/// which is the rest without LFs and without whitespace at either end.
pub open spec fn heading_of(s: Seq<char>) -> Option<(nat, Seq<char>)> {
    let a = skip_blanks(s, 0);
    let h = skip_char(s, a, '#');
    if h <= a {
        None
    } else {
        let b = skip_blanks(s, h);
        Some(((h - a) as nat, trim_spec(without_newlines(s.subrange(b, s.len() as int)))))
    }
}

pub open spec fn is_blank_spec(s: Seq<char>) -> bool {
    content_chars(s).len() == 0
}

pub open spec fn is_code_fence_spec(s: Seq<char>) -> bool {
    let t = content_chars(s);
    t.len() >= 3 && ((t[0] == '`' && t[1] == '`' && t[2] == '`') || (t[0] == '~' && t[1] == '~'
        && t[2] == '~'))
}

/// The number of `#` that a line's content starts with, if any.
pub open spec fn heading_level_spec(s: Seq<char>) -> Option<nat> {
    let t = content_chars(s);
    let h = skip_char(t, 0, '#');
    if h > 0 {
        Some(h as nat)
    } else {
        None
    }
}

pub open spec fn is_blockquote_spec(s: Seq<char>) -> bool {
    let t = content_chars(s);
    t.len() > 0 && t[0] == '>'
}

pub open spec fn is_list_item_spec(s: Seq<char>) -> bool {
    let t = content_chars(s);
    t.len() >= 2 && (t[0] == '-' || t[0] == '*' || t[0] == '+') && t[1] == ' '
}

pub open spec fn is_horizontal_rule_spec(s: Seq<char>) -> bool {
    let t = content_chars(s);
    t.len() == 3 && (t[0] == '-' || t[0] == '*' || t[0] == '_') && t[1] == t[0] && t[2] == t[0]
}

proof fn lemma_without_newlines_push(s: Seq<char>, c: char)
    ensures
        without_newlines(s.push(c)) == if c == '\n' {
            without_newlines(s)
        } else {
            without_newlines(s).push(c)
        },
{
    assert(s.push(c).drop_last() =~= s);
}

/// A text without LFs is left as it is.
proof fn lemma_without_newlines_none(s: Seq<char>)
    requires
        forall|j: int| 0 <= j < s.len() ==> s[j] != '\n',
    ensures
        without_newlines(s) == s,
    decreases s.len(),
{
    if s.len() > 0 {
        lemma_without_newlines_none(s.drop_last());
        assert(s.drop_last().push(s.last()) =~= s);
    }
}

proof fn lemma_skip_leading_bounds(s: Seq<char>, i: int)
    requires
        0 <= i <= s.len(),
    ensures
        i <= skip_leading(s, i) <= s.len(),
        forall|j: int| i <= j < skip_leading(s, i) ==> is_blank_char(#[trigger] s[j]) || s[j] == '\n',
        skip_leading(s, i) < s.len() ==> !is_blank_char(s[skip_leading(s, i)]) && s[skip_leading(s, i)] != '\n',
    decreases s.len() - i,
{
    if i < s.len() && (is_blank_char(s[i]) || s[i] == '\n') {
        lemma_skip_leading_bounds(s, i + 1);
    }
}

/// Whitespace up to `k`, then a char that is not, puts `skip_whitespace` at `k`.
proof fn lemma_skip_whitespace_to(s: Seq<char>, i: int, k: int)
    requires
        0 <= i <= k < s.len(),
        forall|j: int| i <= j < k ==> is_unicode_whitespace(#[trigger] s[j]),
        !is_unicode_whitespace(s[k]),
    ensures
        skip_whitespace(s, i) == k,
    decreases k - i,
{
    if i < k {
        lemma_skip_whitespace_to(s, i + 1, k);
    }
}

/// The text of a list item, trimmed at its start, is the text its Markdown
/// shape is read from: for a line whose only LF is its last char, the two
/// ways of skipping the indent agree.
pub proof fn lemma_list_item_trimmed(c: Seq<char>, text: Seq<char>)
    requires
        c == text || c == text.push('\n'),
        forall|j: int| 0 <= j < text.len() ==> text[j] != '\n',
        is_list_item_spec(c),
    ensures
        trim_start_spec(text) == content_chars(c),
{
    let k = skip_leading(c, 0);
    lemma_skip_leading_bounds(c, 0);
    if k >= text.len() {
        assert(c.subrange(k, c.len() as int) =~= Seq::<char>::empty() || c.subrange(k, c.len() as int)
            =~= seq!['\n']);
        if c.subrange(k, c.len() as int) =~= seq!['\n'] {
            assert(seq!['\n'].drop_last() =~= Seq::<char>::empty());
        }
        assert(false);
    }
    let rest = text.subrange(k, text.len() as int);
    lemma_without_newlines_none(rest);
    if c == text.push('\n') {
        assert(c.subrange(k, c.len() as int) =~= rest.push('\n'));
        assert(rest.push('\n').drop_last() =~= rest);
    } else {
        assert(c.subrange(k, c.len() as int) =~= rest);
    }
    assert(content_chars(c) == rest);
    assert forall|j: int| 0 <= j < k implies is_unicode_whitespace(#[trigger] text[j]) by {
        assert(c[j] == text[j]);
    }
    assert(text[k] == c[k]);
    lemma_skip_whitespace_to(text, 0, k);
}

proof fn lemma_skip_blanks_bounds(s: Seq<char>, i: int)
    requires
        0 <= i <= s.len(),
    ensures
        i <= skip_blanks(s, i) <= s.len(),
        forall|j: int| i <= j < skip_blanks(s, i) ==> is_blank_char(#[trigger] s[j]),
        skip_blanks(s, i) < s.len() ==> !is_blank_char(s[skip_blanks(s, i)]),
    decreases s.len() - i,
{
    if i < s.len() && is_blank_char(s[i]) {
        lemma_skip_blanks_bounds(s, i + 1);
    }
}

proof fn lemma_skip_char_bounds(s: Seq<char>, i: int, c: char)
    requires
        0 <= i <= s.len(),
    ensures
        i <= skip_char(s, i, c) <= s.len(),
        forall|j: int| i <= j < skip_char(s, i, c) ==> #[trigger] s[j] == c,
        skip_char(s, i, c) < s.len() ==> s[skip_char(s, i, c)] != c,
    decreases s.len() - i,
{
    if i < s.len() && s[i] == c {
        lemma_skip_char_bounds(s, i + 1, c);
    }
}

proof fn lemma_without_newlines_concat(x: Seq<char>, y: Seq<char>)
    ensures
        without_newlines(x + y) == without_newlines(x) + without_newlines(y),
    decreases y.len(),
{
    if y.len() == 0 {
        assert(x + y =~= x);
        assert(without_newlines(x) + Seq::<char>::empty() =~= without_newlines(x));
    } else {
        lemma_without_newlines_concat(x, y.drop_last());
        assert((x + y).drop_last() =~= x + y.drop_last());
        assert((x + y).last() == y.last());
        if y.last() != '\n' {
            assert(without_newlines(x) + without_newlines(y.drop_last()).push(y.last()) =~= (without_newlines(x)
                + without_newlines(y.drop_last())).push(y.last()));
        }
    }
}

/// A line is a heading exactly when its first char after spaces and tabs
/// is `#`; the level is the length of that run of `#`, and the title is the
/// rest of the line without its LFs, trimmed.
pub proof fn law_heading_level_and_title(s: Seq<char>)
    ensures
        heading_of(s) is Some <==> (skip_blanks(s, 0) < s.len() && s[skip_blanks(s, 0)] == '#'),
        forall|j: int|
            skip_blanks(s, 0) <= j < skip_char(s, skip_blanks(s, 0), '#') ==> #[trigger] s[j] == '#',
        skip_char(s, skip_blanks(s, 0), '#') < s.len() ==> s[skip_char(s, skip_blanks(s, 0), '#')] != '#',
        heading_of(s) is Some ==> heading_of(s) == Some(
            (
                (skip_char(s, skip_blanks(s, 0), '#') - skip_blanks(s, 0)) as nat,
                trim_spec(without_newlines(s.subrange(skip_char(s, skip_blanks(s, 0), '#'), s.len() as int))),
            ),
        ),
{
    let a = skip_blanks(s, 0);
    lemma_skip_blanks_bounds(s, 0);
    let h = skip_char(s, a, '#');
    lemma_skip_char_bounds(s, a, '#');
    if h > a {
        let b = skip_blanks(s, h);
        lemma_skip_blanks_bounds(s, h);
        let gap = s.subrange(h, b);
        let rest = s.subrange(b, s.len() as int);
        assert(s.subrange(h, s.len() as int) =~= gap + rest);
        lemma_without_newlines_concat(gap, rest);
        lemma_without_newlines_none(gap);
        assert forall|j: int| 0 <= j < gap.len() implies is_unicode_whitespace(#[trigger] gap[j]) by {
            assert(gap[j] == s[h + j]);
        }
        lemma_trim_whitespace_prefix(gap, without_newlines(rest));
    }
}

proof fn lemma_without_newlines_len(s: Seq<char>)
    ensures
        without_newlines(s).len() <= s.len(),
    decreases s.len(),
{
    if s.len() > 0 {
        lemma_without_newlines_len(s.drop_last());
    }
}

/// A heading's level is at most the length of its line.
pub proof fn lemma_heading_level_bound(line: Seq<char>)
    ensures
        heading_level_spec(line) matches Some(h) ==> h <= line.len(),
{
    lemma_skip_leading_bounds(line, 0);
    let t = content_chars(line);
    lemma_without_newlines_len(line.subrange(skip_leading(line, 0), line.len() as int));
    lemma_skip_char_bounds(t, 0, '#');
}

/// The chars of `line[from..]` without LFs.
fn chars_without_newlines(line: &Vec<char>, from: usize) -> (out: Vec<char>)
    requires
        from <= line.len(),
    ensures
        out@ == without_newlines(line@.subrange(from as int, line@.len() as int)),
{
    let mut out: Vec<char> = Vec::new();
    let mut i = from;
    assert(line@.subrange(from as int, from as int) =~= Seq::<char>::empty());
    while i < line.len()
        invariant
            from <= i <= line.len(),
            out@ == without_newlines(line@.subrange(from as int, i as int)),
        decreases line.len() - i,
    {
        let c = line[i];
        proof {
            assert(line@.subrange(from as int, i + 1) =~= line@.subrange(from as int, i as int).push(c));
            lemma_without_newlines_push(line@.subrange(from as int, i as int), c);
        }
        if c != '\n' {
            out.push(c);
        }
        i += 1;
    }
    out
}

/// The chars that a line's Markdown shape is read from (see `content_chars`).
pub fn trimmed_chars(line: &Vec<char>) -> (t: Vec<char>)
    ensures
        t@ == content_chars(line@),
{
    let mut a: usize = 0;
    while a < line.len() && (line[a] == ' ' || line[a] == '\t' || line[a] == '\n')
        invariant
            a <= line.len(),
            skip_leading(line@, a as int) == skip_leading(line@, 0),
        decreases line.len() - a,
    {
        a += 1;
    }
    chars_without_newlines(line, a)
}

fn skip_blanks_from(line: &Vec<char>, from: usize) -> (i: usize)
    requires
        from <= line.len(),
    ensures
        i == skip_blanks(line@, from as int),
        from <= i <= line.len(),
{
    let mut i = from;
    while i < line.len() && (line[i] == ' ' || line[i] == '\t')
        invariant
            from <= i <= line.len(),
            skip_blanks(line@, i as int) == skip_blanks(line@, from as int),
        decreases line.len() - i,
    {
        i += 1;
    }
    i
}

pub fn skip_char_from(line: &Vec<char>, from: usize, c: char) -> (i: usize)
    requires
        from <= line.len(),
    ensures
        i == skip_char(line@, from as int, c),
        from <= i <= line.len(),
{
    let mut i = from;
    while i < line.len() && line[i] == c
        invariant
            from <= i <= line.len(),
            skip_char(line@, i as int, c) == skip_char(line@, from as int, c),
        decreases line.len() - i,
    {
        i += 1;
    }
    i
}

/// A heading's level and title, read from the chars of one line.
pub fn parse_heading(line: &Vec<char>) -> (res: Option<(usize, String)>)
    ensures
        match res {
            Some((level, title)) => heading_of(line@) == Some((level as nat, title@)),
            None => heading_of(line@) is None,
        },
{
    let a = skip_blanks_from(line, 0);
    let h = skip_char_from(line, a, '#');
    if h == a {
        return None;
    }
    let b = skip_blanks_from(line, h);
    let rest = chars_without_newlines(line, b);
    let title = trim_chars(&rest);
    Some((h - a, crate::strings::chars_to_string(&title)))
}

pub fn is_blank(line: &Vec<char>) -> (b: bool)
    ensures
        b == is_blank_spec(line@),
{
    trimmed_chars(line).len() == 0
}

pub fn is_code_fence(line: &Vec<char>) -> (b: bool)
    ensures
        b == is_code_fence_spec(line@),
{
    let t = trimmed_chars(line);
    t.len() >= 3 && ((t[0] == '`' && t[1] == '`' && t[2] == '`') || (t[0] == '~' && t[1] == '~'
        && t[2] == '~'))
}

pub fn heading_level(line: &Vec<char>) -> (level: Option<usize>)
    ensures
        match level {
            Some(l) => heading_level_spec(line@) == Some(l as nat),
            None => heading_level_spec(line@) is None,
        },
{
    let t = trimmed_chars(line);
    let h = skip_char_from(&t, 0, '#');
    if h > 0 {
        Some(h)
    } else {
        None
    }
}

pub fn is_blockquote(line: &Vec<char>) -> (b: bool)
    ensures
        b == is_blockquote_spec(line@),
{
    let t = trimmed_chars(line);
    t.len() > 0 && t[0] == '>'
}

pub fn is_list_item(line: &Vec<char>) -> (b: bool)
    ensures
        b == is_list_item_spec(line@),
{
    let t = trimmed_chars(line);
    t.len() >= 2 && (t[0] == '-' || t[0] == '*' || t[0] == '+') && t[1] == ' '
}

pub fn is_horizontal_rule(line: &Vec<char>) -> (b: bool)
    ensures
        b == is_horizontal_rule_spec(line@),
{
    let t = trimmed_chars(line);
    t.len() == 3 && (t[0] == '-' || t[0] == '*' || t[0] == '_') && t[1] == t[0] && t[2] == t[0]
}

/// A line whose content, after spaces and tabs, starts with a bullet (`-`,
/// `*` or `+`) and a space is a list item, whatever follows; it is then no
/// heading, no fence, no quote and no rule.
pub proof fn law_bullet_lines_are_list_items(indent: Seq<char>, c: char, rest: Seq<char>)
    requires
        c == '-' || c == '*' || c == '+',
        forall|j: int| 0 <= j < indent.len() ==> is_blank_char(#[trigger] indent[j]),
    ensures
        is_list_item_spec(indent + seq![c, ' '] + rest),
        content_chars(indent + seq![c, ' '] + rest) == seq![c, ' '] + without_newlines(rest),
        heading_level_spec(indent + seq![c, ' '] + rest) is None,
        !is_code_fence_spec(indent + seq![c, ' '] + rest),
        !is_blockquote_spec(indent + seq![c, ' '] + rest),
        !is_horizontal_rule_spec(indent + seq![c, ' '] + rest),
        !is_blank_spec(indent + seq![c, ' '] + rest),
{
    let x = seq![c, ' '] + rest;
    let s = indent + seq![c, ' '] + rest;
    assert(s =~= indent + x);
    lemma_skip_leading_prefix(indent, x, 0);
    assert(s.subrange(indent.len() as int, s.len() as int) =~= x);
    lemma_without_newlines_concat(seq![c, ' '], rest);
    lemma_without_newlines_none(seq![c, ' ']);
    let t = content_chars(s);
    assert(t[0] == c && t[1] == ' ');
    assert(skip_char(t, 0, '#') == 0);
}

proof fn lemma_skip_leading_prefix(p: Seq<char>, x: Seq<char>, i: int)
    requires
        0 <= i <= p.len(),
        forall|j: int| 0 <= j < p.len() ==> is_blank_char(#[trigger] p[j]),
        x.len() > 0,
        !is_blank_char(x[0]) && x[0] != '\n',
    ensures
        skip_leading(p + x, i) == p.len(),
    decreases p.len() - i,
{
    let y = p + x;
    if i < p.len() {
        assert(y[i] == p[i]);
        lemma_skip_leading_prefix(p, x, i + 1);
    } else {
        assert(y[i] == x[0]);
    }
}

} // verus!
