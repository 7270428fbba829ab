//! Building and taking apart strings char by char.

use vstd::prelude::*;

verus! {

/// Calls `String::push`, which appends one char.
#[verifier::external_body]
pub fn string_push(s: &mut String, c: char)
    ensures
        final(s)@ == old(s)@.push(c),
{
    s.push(c);
}

/// A string that holds the given chars.
pub fn chars_to_string(chars: &Vec<char>) -> (s: String)
    ensures
        s@ == chars@,
{
    let mut s = String::new();
    let mut i: usize = 0;
    while i < chars.len()
        invariant
            i <= chars.len(),
            s@ == chars@.take(i as int),
        decreases chars.len() - i,
    {
        string_push(&mut s, chars[i]);
        i += 1;
        assert(s@ =~= chars@.take(i as int));
    }
    assert(chars@.take(chars.len() as int) =~= chars@);
    s
}

/// The chars of a string slice.
pub fn str_to_chars(text: &str) -> (chars: Vec<char>)
    ensures
        chars@ == text@,
{
    let mut chars: Vec<char> = Vec::new();
    for c in it: text.chars()
        invariant
            chars@ == it.seq().take(it.index() as int),
            it.seq() == text@,
    {
        chars.push(c);
    }
    chars
}


/// Unicode's `White_Space` property, which `char::is_whitespace` tests.
pub open spec fn is_unicode_whitespace(c: char) -> bool {
    ('\u{09}' <= c && c <= '\u{0D}') || c == ' ' || c == '\u{85}' || c == '\u{A0}' || c
        == '\u{1680}' || ('\u{2000}' <= c && c <= '\u{200A}') || c == '\u{2028}' || c
        == '\u{2029}' || c == '\u{202F}' || c == '\u{205F}' || c == '\u{3000}'
}

pub fn is_whitespace(c: char) -> (b: bool)
    ensures
        b == is_unicode_whitespace(c),
{
    ('\u{09}' <= c && c <= '\u{0D}') || c == ' ' || c == '\u{85}' || c == '\u{A0}' || c
        == '\u{1680}' || ('\u{2000}' <= c && c <= '\u{200A}') || c == '\u{2028}' || c
        == '\u{2029}' || c == '\u{202F}' || c == '\u{205F}' || c == '\u{3000}'
}

/// The first index at or after `i` whose char is not whitespace, or the length.
pub open spec fn skip_whitespace(s: Seq<char>, i: int) -> int
    decreases s.len() - i,
{
    if 0 <= i < s.len() && is_unicode_whitespace(s[i]) {
        skip_whitespace(s, i + 1)
    } else {
        i
    }
}

/// The end of `s.take(j)` once the whitespace at its end is dropped.
pub open spec fn skip_whitespace_back(s: Seq<char>, j: int) -> int
    decreases j,
{
    if 0 < j <= s.len() && is_unicode_whitespace(s[j - 1]) {
        skip_whitespace_back(s, j - 1)
    } else {
        j
    }
}

/// `s` without whitespace at either end, as `str::trim` gives it.
pub open spec fn trim_spec(s: Seq<char>) -> Seq<char> {
    let a = skip_whitespace(s, 0);
    if a >= s.len() {
        Seq::<char>::empty()
    } else {
        s.subrange(a, skip_whitespace_back(s, s.len() as int))
    }
}

/// `s` without whitespace at its start, as `str::trim_start` gives it.
pub open spec fn trim_start_spec(s: Seq<char>) -> Seq<char> {
    s.subrange(skip_whitespace(s, 0), s.len() as int)
}

pub proof fn lemma_skip_whitespace_bounds(s: Seq<char>, i: int)
    requires
        0 <= i <= s.len(),
    ensures
        i <= skip_whitespace(s, i) <= s.len(),
        skip_whitespace(s, i) < s.len() ==> !is_unicode_whitespace(s[skip_whitespace(s, i)]),
        forall|k: int| i <= k < skip_whitespace(s, i) ==> is_unicode_whitespace(s[k]),
    decreases s.len() - i,
{
    if i < s.len() && is_unicode_whitespace(s[i]) {
        lemma_skip_whitespace_bounds(s, i + 1);
    }
}

pub proof fn lemma_skip_whitespace_back_bounds(s: Seq<char>, j: int)
    requires
        0 <= j <= s.len(),
    ensures
        0 <= skip_whitespace_back(s, j) <= j,
        forall|k: int| skip_whitespace_back(s, j) <= k < j ==> is_unicode_whitespace(s[k]),
        skip_whitespace_back(s, j) > 0 ==> !is_unicode_whitespace(s[skip_whitespace_back(s, j) - 1]),
    decreases j,
{
    if 0 < j && is_unicode_whitespace(s[j - 1]) {
        lemma_skip_whitespace_back_bounds(s, j - 1);
    }
}

pub proof fn lemma_skip_whitespace_prefix(p: Seq<char>, x: Seq<char>, i: int)
    requires
        0 <= i <= p.len() + x.len(),
        forall|j: int| 0 <= j < p.len() ==> is_unicode_whitespace(#[trigger] p[j]),
    ensures
        skip_whitespace(p + x, i) == p.len() + skip_whitespace(x, if i >= p.len() { i - p.len() } else { 0 }),
    decreases p.len() + x.len() - i,
{
    let y = p + x;
    if i < p.len() {
        assert(y[i] == p[i]);
        lemma_skip_whitespace_prefix(p, x, i + 1);
    } else if i < y.len() {
        assert(y[i] == x[i - p.len()]);
        if is_unicode_whitespace(y[i]) {
            lemma_skip_whitespace_prefix(p, x, i + 1);
        }
    }
}

proof fn lemma_skip_whitespace_back_prefix(p: Seq<char>, x: Seq<char>, j: int, a: int)
    requires
        0 <= a < j <= x.len(),
        !is_unicode_whitespace(x[a]),
    ensures
        skip_whitespace_back(p + x, p.len() + j) == p.len() + skip_whitespace_back(x, j),
    decreases j,
{
    let y = p + x;
    assert(y[p.len() + j - 1] == x[j - 1]);
    if is_unicode_whitespace(x[j - 1]) {
        lemma_skip_whitespace_back_prefix(p, x, j - 1, a);
    }
}

/// Whitespace in front of a text makes no difference once it is trimmed.
pub proof fn lemma_trim_whitespace_prefix(p: Seq<char>, x: Seq<char>)
    requires
        forall|j: int| 0 <= j < p.len() ==> is_unicode_whitespace(#[trigger] p[j]),
    ensures
        trim_spec(p + x) == trim_spec(x),
{
    let y = p + x;
    lemma_skip_whitespace_prefix(p, x, 0);
    lemma_skip_whitespace_bounds(x, 0);
    let a = skip_whitespace(x, 0);
    if a < x.len() {
        lemma_skip_whitespace_back_prefix(p, x, x.len() as int, a);
        lemma_skip_whitespace_back_bounds(x, x.len() as int);
        assert(y.subrange(p.len() + a, p.len() + skip_whitespace_back(x, x.len() as int)) =~= x.subrange(
            a,
            skip_whitespace_back(x, x.len() as int),
        ));
    }
}

/// The chars of `text` without whitespace at either end.
pub fn trim_chars(text: &Vec<char>) -> (t: Vec<char>)
    ensures
        t@ == trim_spec(text@),
{
    let n = text.len();
    let mut a: usize = 0;
    while a < n && is_whitespace(text[a])
        invariant
            a <= n == text@.len(),
            skip_whitespace(text@, a as int) == skip_whitespace(text@, 0),
        decreases n - a,
    {
        a += 1;
    }
    let mut out: Vec<char> = Vec::new();
    if a >= n {
        return out;
    }
    let mut b: usize = n;
    while b > 0 && is_whitespace(text[b - 1])
        invariant
            b <= n == text@.len(),
            skip_whitespace_back(text@, b as int) == skip_whitespace_back(text@, n as int),
        decreases b,
    {
        b -= 1;
    }
    proof {
        lemma_skip_whitespace_back_bounds(text@, n as int);
        if b <= a {
            assert(is_unicode_whitespace(text@[a as int]));
        }
    }
    let mut i = a;
    while i < b
        invariant
            a <= i <= b <= n == text@.len(),
            out@ == text@.subrange(a as int, i as int),
        decreases b - i,
    {
        out.push(text[i]);
        i += 1;
        assert(out@ =~= text@.subrange(a as int, i as int));
    }
    out
}

/// The chars of `text` without whitespace at its start.
pub fn trim_start_chars(text: &Vec<char>) -> (t: Vec<char>)
    ensures
        t@ == trim_start_spec(text@),
{
    let n = text.len();
    let mut a: usize = 0;
    while a < n && is_whitespace(text[a])
        invariant
            a <= n == text@.len(),
            skip_whitespace(text@, a as int) == skip_whitespace(text@, 0),
        decreases n - a,
    {
        a += 1;
    }
    let mut out: Vec<char> = Vec::new();
    let mut i = a;
    while i < n
        invariant
            a <= i <= n == text@.len(),
            a == skip_whitespace(text@, 0),
            out@ == text@.subrange(a as int, i as int),
        decreases n - i,
    {
        out.push(text[i]);
        i += 1;
        assert(out@ =~= text@.subrange(a as int, i as int));
    }
    out
}

/// The decimal digits of `n`, most significant first.
pub open spec fn decimal(n: nat) -> Seq<char>
    decreases n,
{
    if n < 10 {
        seq![digit_char(n)]
    } else {
        decimal(n / 10).push(digit_char(n % 10))
    }
}

pub open spec fn digit_char(d: nat) -> char {
    if d == 0 {
        '0'
    } else if d == 1 {
        '1'
    } else if d == 2 {
        '2'
    } else if d == 3 {
        '3'
    } else if d == 4 {
        '4'
    } else if d == 5 {
        '5'
    } else if d == 6 {
        '6'
    } else if d == 7 {
        '7'
    } else if d == 8 {
        '8'
    } else {
        '9'
    }
}

fn digit(d: usize) -> (c: char)
    requires
        d < 10,
    ensures
        c == digit_char(d as nat),
{
    if d == 0 {
        '0'
    } else if d == 1 {
        '1'
    } else if d == 2 {
        '2'
    } else if d == 3 {
        '3'
    } else if d == 4 {
        '4'
    } else if d == 5 {
        '5'
    } else if d == 6 {
        '6'
    } else if d == 7 {
        '7'
    } else if d == 8 {
        '8'
    } else {
        '9'
    }
}

/// The decimal representation of `n`.
pub fn usize_to_decimal(n: usize) -> (s: String)
    ensures
        s@ == decimal(n as nat),
    decreases n,
{
    if n < 10 {
        let mut s = String::new();
        string_push(&mut s, digit(n));
        assert(s@ =~= seq![digit_char(n as nat)]);
        s
    } else {
        let mut s = usize_to_decimal(n / 10);
        string_push(&mut s, digit(n % 10));
        s
    }
}

/// Appends the chars of `text` to `s`.
pub fn push_str(s: &mut String, text: &str)
    ensures
        final(s)@ == old(s)@ + text@,
{
    s.append(text);
}


/// Whether two string slices hold the same chars.
pub fn str_eq(a: &str, b: &str) -> (eq: bool)
    ensures
        eq == (a@ == b@),
{
    let x = str_to_chars(a);
    let y = str_to_chars(b);
    if x.len() != y.len() {
        assert(a@.len() != b@.len());
        return false;
    }
    let mut i: usize = 0;
    while i < x.len()
        invariant
            i <= x@.len() == y@.len(),
            x@ == a@,
            y@ == b@,
            forall|j: int| 0 <= j < i ==> x@[j] == y@[j],
        decreases x@.len() - i,
    {
        if x[i] != y[i] {
            return false;
        }
        i += 1;
    }
    assert(x@ =~= y@);
    true
}

/// Whether a string slice starts with `c`.
pub fn starts_with_char(a: &str, c: char) -> (b: bool)
    ensures
        b == (a@.len() > 0 && a@[0] == c),
{
    let x = str_to_chars(a);
    x.len() > 0 && x[0] == c
}

/// A new string holding the chars of `text`.
pub fn to_owned_string(text: &str) -> (s: String)
    ensures
        s@ == text@,
{
    let mut s = String::new();
    push_str(&mut s, text);
    assert(s@ =~= text@);
    s
}

} // verus!
