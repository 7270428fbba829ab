//! Markdown syntax highlighting of one line, as a list of styled spans.

use vstd::prelude::*;

use crate::markdown::{skip_char, skip_char_from};
use crate::strings::{
    chars_to_string, is_unicode_whitespace, is_whitespace, lemma_skip_whitespace_prefix,
    skip_whitespace, str_to_chars,
};

verus! {

/// How a span of a line is shown.
#[derive(Debug, Clone, Copy, PartialEq, Eq, Structural)]
pub enum SpanStyle {
    Raw,
    Heading(usize),
    Fence,
    Blockquote,
    Bullet,
    Number,
    Rule,
    Bold,
    Code,
}

#[derive(Debug, Clone)]
pub struct StyledSpan {
    pub text: String,
    pub style: SpanStyle,
}

/// The first index `j >= from` with `d` at `j` and `j + 1`, or the length.
pub open spec fn first_pair_from(t: Seq<char>, from: int, d: char) -> int
    decreases t.len() - from,
{
    if from < 0 || from + 1 >= t.len() {
        t.len() as int
    } else if t[from] == d && t[from + 1] == d {
        from
    } else {
        first_pair_from(t, from + 1, d)
    }
}

/// The first index `j >= from` with `d` at `j`, or the length.
pub open spec fn first_char_from(t: Seq<char>, from: int, d: char) -> int
    decreases t.len() - from,
{
    if from < 0 || from >= t.len() {
        t.len() as int
    } else if t[from] == d {
        from
    } else {
        first_char_from(t, from + 1, d)
    }
}

/// The first index `p` with ". " at `p`, or the length.
pub open spec fn first_dot_space(t: Seq<char>, from: int) -> int
    decreases t.len() - from,
{
    if from < 0 || from + 1 >= t.len() {
        t.len() as int
    } else if t[from] == '.' && t[from + 1] == ' ' {
        from
    } else {
        first_dot_space(t, from + 1)
    }
}

pub open spec fn is_ascii_digit(c: char) -> bool {
    '0' <= c && c <= '9'
}

/// The plain text from `plain` to `i`, as a span when it is not empty.
pub open spec fn plain_span(t: Seq<char>, plain: int, i: int) -> Seq<(SpanStyle, Seq<char>)> {
    if plain < i {
        seq![(SpanStyle::Raw, t.subrange(plain, i))]
    } else {
        Seq::empty()
    }
}

/// The inline spans of `t` from index `i` on, with plain text pending
/// from `plain`: `**bold**`, `__bold__` and `` `code` `` stand out, the
/// rest is plain.
pub open spec fn inline_from(t: Seq<char>, i: int, plain: int) -> Seq<(SpanStyle, Seq<char>)>
    decreases t.len() - i,
{
    if i < 0 || i >= t.len() {
        plain_span(t, plain, t.len() as int)
    } else if i + 1 < t.len() && (t[i] == '*' || t[i] == '_') && t[i + 1] == t[i]
        && first_pair_from(t, i + 2, t[i]) < t.len() {
        proof {
            lemma_first_pair(t, i + 2, t[i]);
        }
        let end = first_pair_from(t, i + 2, t[i]) + 2;
        plain_span(t, plain, i) + seq![(SpanStyle::Bold, t.subrange(i, end))] + inline_from(t, end, end)
    } else if t[i] == '`' && first_char_from(t, i + 1, '`') < t.len() {
        proof {
            lemma_first_char(t, i + 1, '`');
        }
        let end = first_char_from(t, i + 1, '`') + 1;
        plain_span(t, plain, i) + seq![(SpanStyle::Code, t.subrange(i, end))] + inline_from(t, end, end)
    } else {
        inline_from(t, i + 1, plain)
    }
}

/// The inline spans of a whole line; an empty line gives one empty span.
pub open spec fn inline_spans(t: Seq<char>) -> Seq<(SpanStyle, Seq<char>)> {
    if t.len() == 0 {
        seq![(SpanStyle::Raw, t)]
    } else {
        inline_from(t, 0, 0)
    }
}

/// Whether `t` starts with three `c`.
pub open spec fn starts_with_three(t: Seq<char>, c: char) -> bool {
    t.len() >= 3 && t[0] == c && t[1] == c && t[2] == c
}

/// The spans of a Markdown line: a heading, a fence, a quote or a rule is
/// one span; a list item splits into indent, marker and rest; other lines
/// get inline highlighting.
pub open spec fn line_spans(t: Seq<char>) -> Seq<(SpanStyle, Seq<char>)> {
    let k = skip_whitespace(t, 0);
    let tr = t.subrange(k, t.len() as int);
    let indent = t.subrange(0, k);
    let p = first_dot_space(tr, 0);
    if tr.len() > 0 && tr[0] == '#' {
        seq![(SpanStyle::Heading(skip_char(tr, 0, '#') as usize), t)]
    } else if starts_with_three(tr, '`') || starts_with_three(tr, '~') {
        seq![(SpanStyle::Fence, t)]
    } else if tr.len() > 0 && tr[0] == '>' {
        seq![(SpanStyle::Blockquote, t)]
    } else if tr.len() >= 2 && (tr[0] == '-' || tr[0] == '*' || tr[0] == '+') && tr[1] == ' ' {
        seq![(SpanStyle::Raw, indent), (SpanStyle::Bullet, tr.take(2)), (SpanStyle::Raw, tr.skip(2))]
    } else if p < tr.len() && (forall|j: int| 0 <= j < p ==> is_ascii_digit(#[trigger] tr[j])) {
        seq![(SpanStyle::Raw, indent), (SpanStyle::Number, tr.take(p + 2)), (SpanStyle::Raw, tr.skip(p + 2))]
    } else if tr.len() == 3 && (starts_with_three(tr, '-') || starts_with_three(tr, '*')
        || starts_with_three(tr, '_')) {
        seq![(SpanStyle::Rule, t)]
    } else {
        inline_spans(t)
    }
}

/// The texts of the spans, joined.
pub open spec fn spans_text(spans: Seq<(SpanStyle, Seq<char>)>) -> Seq<char>
    decreases spans.len(),
{
    if spans.len() == 0 {
        Seq::empty()
    } else {
        spans_text(spans.drop_last()) + spans.last().1
    }
}

/// The styles and texts of a list of spans.
pub open spec fn span_views(spans: Seq<StyledSpan>) -> Seq<(SpanStyle, Seq<char>)> {
    spans.map_values(|s: StyledSpan| (s.style, s.text@))
}

proof fn lemma_spans_text_append(a: Seq<(SpanStyle, Seq<char>)>, b: Seq<(SpanStyle, Seq<char>)>)
    ensures
        spans_text(a + b) == spans_text(a) + spans_text(b),
    decreases b.len(),
{
    if b.len() == 0 {
        assert(a + b =~= a);
        assert(spans_text(a) + Seq::<char>::empty() =~= spans_text(a));
    } else {
        lemma_spans_text_append(a, b.drop_last());
        assert((a + b).drop_last() =~= a + b.drop_last());
        assert(spans_text(a) + (spans_text(b.drop_last()) + b.last().1) =~= (spans_text(a)
            + spans_text(b.drop_last())) + b.last().1);
    }
}

proof fn lemma_spans_text_single(x: (SpanStyle, Seq<char>))
    ensures
        spans_text(seq![x]) == x.1,
{
    assert(seq![x].drop_last() =~= Seq::<(SpanStyle, Seq<char>)>::empty());
    assert(spans_text(Seq::<(SpanStyle, Seq<char>)>::empty()) == Seq::<char>::empty());
    assert(Seq::<char>::empty() + x.1 =~= x.1);
}

pub proof fn lemma_first_pair(t: Seq<char>, from: int, d: char)
    requires
        0 <= from <= t.len(),
    ensures
        first_pair_from(t, from, d) >= from,
        first_pair_from(t, from, d) < t.len() ==> first_pair_from(t, from, d) + 1 < t.len()
            && t[first_pair_from(t, from, d)] == d && t[first_pair_from(t, from, d) + 1] == d,
    decreases t.len() - from,
{
    if from + 1 < t.len() && !(t[from] == d && t[from + 1] == d) {
        lemma_first_pair(t, from + 1, d);
    }
}

pub proof fn lemma_first_char(t: Seq<char>, from: int, d: char)
    requires
        0 <= from <= t.len(),
    ensures
        first_char_from(t, from, d) >= from,
        first_char_from(t, from, d) < t.len() ==> t[first_char_from(t, from, d)] == d,
    decreases t.len() - from,
{
    if from < t.len() && t[from] != d {
        lemma_first_char(t, from + 1, d);
    }
}

pub proof fn lemma_first_dot_space(t: Seq<char>, from: int)
    requires
        0 <= from <= t.len(),
    ensures
        first_dot_space(t, from) >= from,
        first_dot_space(t, from) < t.len() ==> first_dot_space(t, from) + 1 < t.len(),
        forall|j: int| from <= j < first_dot_space(t, from) && j + 1 < t.len() ==> !(#[trigger] t[j] == '.' && t[j + 1] == ' '),
    decreases t.len() - from,
{
    if from + 1 < t.len() && !(t[from] == '.' && t[from + 1] == ' ') {
        lemma_first_dot_space(t, from + 1);
    }
}

/// Inline highlighting keeps every char, in order: the spans from `i` on
/// join into the text from `plain` on.
proof fn lemma_inline_from_text(t: Seq<char>, i: int, plain: int)
    requires
        0 <= plain <= i <= t.len(),
    ensures
        spans_text(inline_from(t, i, plain)) == t.subrange(plain, t.len() as int),
    decreases t.len() - i,
{
    if i >= t.len() {
        if plain < t.len() {
            lemma_spans_text_single((SpanStyle::Raw, t.subrange(plain, t.len() as int)));
        } else {
            assert(t.subrange(plain, t.len() as int) =~= Seq::<char>::empty());
        }
    } else if i + 1 < t.len() && (t[i] == '*' || t[i] == '_') && t[i + 1] == t[i]
        && first_pair_from(t, i + 2, t[i]) < t.len() {
        lemma_first_pair(t, i + 2, t[i]);
        let end = first_pair_from(t, i + 2, t[i]) + 2;
        lemma_inline_from_text(t, end, end);
        let pre = plain_span(t, plain, i);
        let mid = seq![(SpanStyle::Bold, t.subrange(i, end))];
        lemma_spans_text_append(pre + mid, inline_from(t, end, end));
        lemma_spans_text_append(pre, mid);
        lemma_spans_text_single((SpanStyle::Bold, t.subrange(i, end)));
        if plain < i {
            lemma_spans_text_single((SpanStyle::Raw, t.subrange(plain, i)));
        } else {
            assert(spans_text(pre) =~= Seq::<char>::empty());
        }
        assert(t.subrange(plain, i) + t.subrange(i, end) + t.subrange(end, t.len() as int) =~= t.subrange(
            plain,
            t.len() as int,
        ));
    } else if t[i] == '`' && first_char_from(t, i + 1, '`') < t.len() {
        lemma_first_char(t, i + 1, '`');
        let end = first_char_from(t, i + 1, '`') + 1;
        lemma_inline_from_text(t, end, end);
        let pre = plain_span(t, plain, i);
        let mid = seq![(SpanStyle::Code, t.subrange(i, end))];
        lemma_spans_text_append(pre + mid, inline_from(t, end, end));
        lemma_spans_text_append(pre, mid);
        lemma_spans_text_single((SpanStyle::Code, t.subrange(i, end)));
        if plain < i {
            lemma_spans_text_single((SpanStyle::Raw, t.subrange(plain, i)));
        } else {
            assert(spans_text(pre) =~= Seq::<char>::empty());
        }
        assert(t.subrange(plain, i) + t.subrange(i, end) + t.subrange(end, t.len() as int) =~= t.subrange(
            plain,
            t.len() as int,
        ));
    } else {
        lemma_inline_from_text(t, i + 1, plain);
    }
}

/// Highlighting never changes a line: its spans join back into it.
pub proof fn law_highlight_keeps_text(t: Seq<char>)
    ensures
        spans_text(line_spans(t)) == t,
{
    let k = skip_whitespace(t, 0);
    crate::strings::lemma_skip_whitespace_bounds(t, 0);
    let tr = t.subrange(k, t.len() as int);
    let indent = t.subrange(0, k);
    lemma_first_dot_space(tr, 0);
    let p = first_dot_space(tr, 0);
    if tr.len() > 0 && tr[0] == '#' {
        lemma_spans_text_single(line_spans(t)[0]);
    } else if starts_with_three(tr, '`') || starts_with_three(tr, '~') {
        lemma_spans_text_single(line_spans(t)[0]);
    } else if tr.len() > 0 && tr[0] == '>' {
        lemma_spans_text_single(line_spans(t)[0]);
    } else if (tr.len() >= 2 && (tr[0] == '-' || tr[0] == '*' || tr[0] == '+') && tr[1] == ' ') || (p
        < tr.len() && (forall|j: int| 0 <= j < p ==> is_ascii_digit(#[trigger] tr[j]))) {
        let s = line_spans(t);
        let n = if tr.len() >= 2 && (tr[0] == '-' || tr[0] == '*' || tr[0] == '+') && tr[1] == ' ' {
            2
        } else {
            p + 2
        };
        assert(s =~= seq![(SpanStyle::Raw, indent)] + seq![s[1]] + seq![s[2]]);
        lemma_spans_text_append(seq![(SpanStyle::Raw, indent)] + seq![s[1]], seq![s[2]]);
        lemma_spans_text_append(seq![(SpanStyle::Raw, indent)], seq![s[1]]);
        lemma_spans_text_single((SpanStyle::Raw, indent));
        lemma_spans_text_single(s[1]);
        lemma_spans_text_single(s[2]);
        assert(indent + tr.take(n) + tr.skip(n) =~= t);
    } else if tr.len() == 3 && (starts_with_three(tr, '-') || starts_with_three(tr, '*')
        || starts_with_three(tr, '_')) {
        lemma_spans_text_single(line_spans(t)[0]);
    } else {
        if t.len() == 0 {
            lemma_spans_text_single((SpanStyle::Raw, t));
        } else {
            lemma_inline_from_text(t, 0, 0);
            assert(t.subrange(0, t.len() as int) =~= t);
        }
    }
}


fn find_pair(t: &Vec<char>, from: usize, d: char) -> (r: usize)
    requires
        from <= t@.len(),
    ensures
        r == first_pair_from(t@, from as int, d),
{
    let n = t.len();
    let mut j = from;
    while n > 0 && j < n - 1 && !(t[j] == d && t[j + 1] == d)
        invariant
            from <= j <= n == t@.len(),
            first_pair_from(t@, j as int, d) == first_pair_from(t@, from as int, d),
        decreases n - j,
    {
        j += 1;
    }
    if n > 0 && j < n - 1 {
        j
    } else {
        n
    }
}

fn find_char(t: &Vec<char>, from: usize, d: char) -> (r: usize)
    requires
        from <= t@.len(),
    ensures
        r == first_char_from(t@, from as int, d),
{
    let n = t.len();
    let mut j = from;
    while j < n && t[j] != d
        invariant
            from <= j <= n == t@.len(),
            first_char_from(t@, j as int, d) == first_char_from(t@, from as int, d),
        decreases n - j,
    {
        j += 1;
    }
    j
}

fn find_dot_space(t: &Vec<char>) -> (r: usize)
    ensures
        r == first_dot_space(t@, 0),
{
    let n = t.len();
    let mut j: usize = 0;
    while n > 0 && j < n - 1 && !(t[j] == '.' && t[j + 1] == ' ')
        invariant
            j <= n == t@.len(),
            first_dot_space(t@, j as int) == first_dot_space(t@, 0),
        decreases n - j,
    {
        j += 1;
    }
    if n > 0 && j < n - 1 {
        j
    } else {
        n
    }
}

/// The chars `t[a..b]`.
fn sub_chars(t: &Vec<char>, a: usize, b: usize) -> (out: Vec<char>)
    requires
        a <= b <= t@.len(),
    ensures
        out@ == t@.subrange(a as int, b as int),
{
    let mut out: Vec<char> = Vec::new();
    let mut i = a;
    while i < b
        invariant
            a <= i <= b <= t@.len(),
            out@ == t@.subrange(a as int, i as int),
        decreases b - i,
    {
        out.push(t[i]);
        i += 1;
        assert(out@ =~= t@.subrange(a as int, i as int));
    }
    out
}

fn span(t: &Vec<char>, a: usize, b: usize, style: SpanStyle) -> (s: StyledSpan)
    requires
        a <= b <= t@.len(),
    ensures
        s.style == style,
        s.text@ == t@.subrange(a as int, b as int),
{
    StyledSpan { text: chars_to_string(&sub_chars(t, a, b)), style }
}

proof fn lemma_span_views_push(spans: Seq<StyledSpan>, x: StyledSpan)
    ensures
        span_views(spans.push(x)) == span_views(spans).push((x.style, x.text@)),
{
    assert(span_views(spans.push(x)) =~= span_views(spans).push((x.style, x.text@)));
}

/// The inline spans of a line (see `inline_spans`).
fn inline_highlight(t: &Vec<char>) -> (spans: Vec<StyledSpan>)
    ensures
        span_views(spans@) == inline_spans(t@),
{
    let n = t.len();
    let mut spans: Vec<StyledSpan> = Vec::new();
    if n == 0 {
        let e = span(t, 0, 0, SpanStyle::Raw);
        spans.push(e);
        proof {
            lemma_span_views_push(Seq::empty(), e);
            assert(span_views(Seq::<StyledSpan>::empty()) =~= Seq::<(SpanStyle, Seq<char>)>::empty());
            assert(t@.subrange(0, 0) =~= t@);
        }
        return spans;
    }
    let mut i: usize = 0;
    let mut plain: usize = 0;
    proof {
        assert(span_views(spans@) =~= Seq::<(SpanStyle, Seq<char>)>::empty());
    }
    while i < n
        invariant
            plain <= i <= n == t@.len(),
            span_views(spans@) + inline_from(t@, i as int, plain as int) == inline_from(t@, 0, 0),
        decreases n - i,
    {
        let c = t[i];
        let ghost before = span_views(spans@);
        if i + 1 < n && (c == '*' || c == '_') && t[i + 1] == c && find_pair(t, i + 2, c) < n {
            let q = find_pair(t, i + 2, c);
            proof {
                lemma_first_pair(t@, i + 2, c);
            }
            let end = q + 2;
            if plain < i {
                let p = span(t, plain, i, SpanStyle::Raw);
                spans.push(p);
            }
            let b = span(t, i, end, SpanStyle::Bold);
            spans.push(b);
            proof {
                assert(span_views(spans@) =~= before + plain_span(t@, plain as int, i as int) + seq![(SpanStyle::Bold, t@.subrange(i as int, end as int))]);
                assert(inline_from(t@, i as int, plain as int) == plain_span(t@, plain as int, i as int) + seq![(SpanStyle::Bold, t@.subrange(i as int, end as int))] + inline_from(t@, end as int, end as int));
                assert(span_views(spans@) + inline_from(t@, end as int, end as int) =~= before + inline_from(t@, i as int, plain as int));
            }
            i = end;
            plain = end;
        } else if c == '`' && find_char(t, i + 1, '`') < n {
            let q = find_char(t, i + 1, '`');
            proof {
                lemma_first_char(t@, i + 1, '`');
            }
            let end = q + 1;
            if plain < i {
                let p = span(t, plain, i, SpanStyle::Raw);
                spans.push(p);
            }
            let b = span(t, i, end, SpanStyle::Code);
            spans.push(b);
            proof {
                assert(span_views(spans@) =~= before + plain_span(t@, plain as int, i as int) + seq![(SpanStyle::Code, t@.subrange(i as int, end as int))]);
                assert(inline_from(t@, i as int, plain as int) == plain_span(t@, plain as int, i as int) + seq![(SpanStyle::Code, t@.subrange(i as int, end as int))] + inline_from(t@, end as int, end as int));
                assert(span_views(spans@) + inline_from(t@, end as int, end as int) =~= before + inline_from(t@, i as int, plain as int));
            }
            i = end;
            plain = end;
        } else {
            i += 1;
        }
    }
    if plain < n {
        let p = span(t, plain, n, SpanStyle::Raw);
        let ghost before = span_views(spans@);
        spans.push(p);
        proof {
            assert(span_views(spans@) =~= before + plain_span(t@, plain as int, n as int));
        }
    } else {
        assert(span_views(spans@) =~= span_views(spans@) + plain_span(t@, plain as int, n as int));
    }
    spans
}


fn three_of(t: &Vec<char>, c: char) -> (b: bool)
    ensures
        b == starts_with_three(t@, c),
{
    t.len() >= 3 && t[0] == c && t[1] == c && t[2] == c
}

fn all_digits(t: &Vec<char>, p: usize) -> (b: bool)
    requires
        p <= t@.len(),
    ensures
        b == forall|j: int| 0 <= j < p ==> is_ascii_digit(#[trigger] t@[j]),
{
    let mut j: usize = 0;
    while j < p
        invariant
            j <= p <= t@.len(),
            forall|k: int| 0 <= k < j ==> is_ascii_digit(#[trigger] t@[k]),
        decreases p - j,
    {
        if !('0' <= t[j] && t[j] <= '9') {
            return false;
        }
        j += 1;
    }
    true
}

/// The styled spans of one Markdown line (see `line_spans`).
pub fn highlight_line(text: &str) -> (spans: Vec<StyledSpan>)
    ensures
        span_views(spans@) == line_spans(text@),
{
    let t = str_to_chars(text);
    let n = t.len();
    let mut k: usize = 0;
    while k < n && is_whitespace(t[k])
        invariant
            k <= n == t@.len(),
            skip_whitespace(t@, k as int) == skip_whitespace(t@, 0),
        decreases n - k,
    {
        k += 1;
    }
    let tr = sub_chars(&t, k, n);
    let mut spans: Vec<StyledSpan> = Vec::new();
    if tr.len() > 0 && tr[0] == '#' {
        let level = skip_char_from(&tr, 0, '#');
        spans.push(span(&t, 0, n, SpanStyle::Heading(level)));
    } else if three_of(&tr, '`') || three_of(&tr, '~') {
        spans.push(span(&t, 0, n, SpanStyle::Fence));
    } else if tr.len() > 0 && tr[0] == '>' {
        spans.push(span(&t, 0, n, SpanStyle::Blockquote));
    } else if tr.len() >= 2 && (tr[0] == '-' || tr[0] == '*' || tr[0] == '+') && tr[1] == ' ' {
        spans.push(span(&t, 0, k, SpanStyle::Raw));
        spans.push(span(&tr, 0, 2, SpanStyle::Bullet));
        spans.push(span(&tr, 2, tr.len(), SpanStyle::Raw));
    } else {
        let p = find_dot_space(&tr);
        proof {
            lemma_first_dot_space(tr@, 0);
        }
        if p < tr.len() && all_digits(&tr, p) {
            spans.push(span(&t, 0, k, SpanStyle::Raw));
            spans.push(span(&tr, 0, p + 2, SpanStyle::Number));
            spans.push(span(&tr, p + 2, tr.len(), SpanStyle::Raw));
        } else if tr.len() == 3 && (three_of(&tr, '-') || three_of(&tr, '*') || three_of(&tr, '_')) {
            spans.push(span(&t, 0, n, SpanStyle::Rule));
        } else {
            spans = inline_highlight(&t);
        }
    }
    proof {
        assert(t@.subrange(0, n as int) =~= t@);
        assert(tr@.subrange(0, 2) =~= tr@.take(2));
        assert(tr@.subrange(2, tr@.len() as int) =~= tr@.skip(2));
        lemma_first_dot_space(tr@, 0);
        let p = first_dot_space(tr@, 0);
        if p < tr@.len() {
            assert(tr@.subrange(0, p + 2) =~= tr@.take(p + 2));
            assert(tr@.subrange(p + 2, tr@.len() as int) =~= tr@.skip(p + 2));
        }
    }
    assert(span_views(spans@) =~= line_spans(text@));
    spans
}

/// A code fence line, opened with three backticks or with three tildes
/// after any indent, is highlighted as one fence span over the whole line,
/// whichever of the two fence chars it uses and whatever follows them.
pub proof fn law_fence_lines_are_one_fence_span(indent: Seq<char>, c: char, rest: Seq<char>)
    requires
        c == '`' || c == '~',
        forall|j: int| 0 <= j < indent.len() ==> is_unicode_whitespace(#[trigger] indent[j]),
    ensures
        line_spans(indent + seq![c, c, c] + rest) == seq![(SpanStyle::Fence, indent + seq![c, c, c] + rest)],
{
    let x = seq![c, c, c] + rest;
    let t = indent + seq![c, c, c] + rest;
    assert(t =~= indent + x);
    lemma_skip_whitespace_prefix(indent, x, 0);
    assert(!is_unicode_whitespace(x[0]));
    assert(skip_whitespace(x, 0) == 0);
    let tr = t.subrange(indent.len() as int, t.len() as int);
    assert(tr =~= x);
    assert(starts_with_three(tr, c));
}

} // verus!
