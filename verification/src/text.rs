//! Characters and texts: white space, searching, comparing and trimming.

use vstd::prelude::*;

verus! {

/// Whether `c` has the Unicode `White_Space` property.
pub open spec fn is_space(c: char) -> bool {
    let u = c as int;
    ||| 0x09 <= u <= 0x0D
    ||| u == 0x20
    ||| u == 0x85
    ||| u == 0xA0
    ||| u == 0x1680
    ||| 0x2000 <= u <= 0x200A
    ||| u == 0x2028
    ||| u == 0x2029
    ||| u == 0x202F
    ||| u == 0x205F
    ||| u == 0x3000
}

/// Tells whether `c` is white space.
pub fn is_whitespace(c: char) -> (b: bool)
    ensures
        b == is_space(c),
{
    let u: u32 = c as u32;
    (0x09 <= u && u <= 0x0D) || u == 0x20 || u == 0x85 || u == 0xA0 || u == 0x1680 || (0x2000 <= u
        && u <= 0x200A) || u == 0x2028 || u == 0x2029 || u == 0x202F || u == 0x205F || u == 0x3000
}

/// The characters of `s`, in order.
pub fn chars_of(s: &str) -> (v: Vec<char>)
    ensures
        v@ == s@,
{
    let mut v: Vec<char> = Vec::new();
    for c in it: s.chars()
        invariant
            v@ == it.seq().take(it.index() as int),
    {
        v.push(c);
    }
    v
}

/// The texts of `lines`, in their order.
pub open spec fn texts(lines: Seq<String>) -> Seq<Seq<char>> {
    Seq::new(lines.len(), |i: int| lines[i]@)
}

/// The text of `s`, if there is one.
pub open spec fn text_of(s: Option<String>) -> Option<Seq<char>> {
    match s {
        Some(t) => Some(t@),
        None => None,
    }
}

/// A stretch of a line, from `start` up to but not including `end`.
#[derive(Clone, Copy, Debug)]
pub struct Span {
    pub start: usize,
    pub end: usize,
}

/// The characters of `s` that `span` covers.
pub open spec fn span_text(s: Seq<char>, span: Span) -> Seq<char> {
    s.subrange(span.start as int, span.end as int)
}

/// The texts that `spans` cover in `s`, in the order of `spans`.
pub open spec fn span_texts(s: Seq<char>, spans: Seq<Span>) -> Seq<Seq<char>> {
    Seq::new(spans.len(), |k: int| span_text(s, spans[k]))
}

/// Whether `word` stands in `chars` exactly where `span` says.
pub fn span_is(chars: &Vec<char>, span: Span, word: &str) -> (b: bool)
    requires
        span.start <= span.end <= chars.len(),
    ensures
        b == (span_text(chars@, span) == word@),
{
    let n = word.unicode_len();
    if span.end - span.start != n {
        return false;
    }
    let mut j: usize = 0;
    while j < n
        invariant
            j <= n,
            n == word@.len(),
            span.start + n == span.end,
            span.end <= chars.len(),
            forall|k: int| 0 <= k < j ==> chars@[span.start + k] == word@[k],
        decreases n - j,
    {
        if chars[span.start + j] != word.get_char(j) {
            proof {
                assert(span_text(chars@, span)[j as int] == chars@[span.start + j]);
            }
            return false;
        }
        j += 1;
    }
    proof {
        assert(span_text(chars@, span) =~= word@);
    }
    true
}

/// Whether the text that `span` covers in `chars` is `word` once its ASCII
/// capitals are in lower case.
pub fn span_is_lowered(chars: &Vec<char>, span: Span, word: &str) -> (b: bool)
    requires
        span.start <= span.end <= chars.len(),
    ensures
        b == (ascii_lowered(span_text(chars@, span)) == word@),
{
    let n = word.unicode_len();
    let ghost low = ascii_lowered(span_text(chars@, span));
    if span.end - span.start != n {
        return false;
    }
    let mut j: usize = 0;
    while j < n
        invariant
            j <= n,
            n == word@.len(),
            span.start + n == span.end,
            span.end <= chars.len(),
            low == ascii_lowered(span_text(chars@, span)),
            forall|k: int| 0 <= k < j ==> low[k] == word@[k],
        decreases n - j,
    {
        let c = chars[span.start + j];
        let w = word.get_char(j);
        let same = if 'A' <= c && c <= 'Z' {
            c as u32 + 32 == w as u32
        } else {
            c == w
        };
        proof {
            assert(low[j as int] == ascii_lower(c));
        }
        if !same {
            return false;
        }
        j += 1;
    }
    proof {
        assert(low =~= word@);
    }
    true
}

/// The lower case of `c` where it is an ASCII capital, else `c`.
pub open spec fn ascii_lower(c: char) -> char {
    if 0x41 <= c as int <= 0x5A {
        ((c as int) + 32) as char
    } else {
        c
    }
}

/// `s` with every ASCII capital in lower case.
pub open spec fn ascii_lowered(s: Seq<char>) -> Seq<char> {
    Seq::new(s.len(), |i: int| ascii_lower(s[i]))
}

/// Whether the two texts are the same.
pub fn same_text(a: &str, b: &str) -> (same: bool)
    ensures
        same == (a@ == b@),
{
    let letters = chars_of(a);
    let n = letters.len();
    proof {
        assert(letters@.subrange(0, n as int) == letters@);
    }
    span_is(&letters, Span { start: 0, end: n }, b)
}

/// The text of `line` that `span` covers, as a string of its own.
pub fn span_string(line: &str, span: Span) -> (s: String)
    requires
        span.start <= span.end <= line@.len(),
    ensures
        s@ == span_text(line@, span),
{
    line.substring_char(span.start, span.end).to_owned()
}

/// The characters of `chars` that `span` covers, copied out.
pub fn span_chars(chars: &Vec<char>, span: Span) -> (v: Vec<char>)
    requires
        span.start <= span.end <= chars.len(),
    ensures
        v@ == span_text(chars@, span),
{
    let mut v: Vec<char> = Vec::new();
    let mut j: usize = span.start;
    while j < span.end
        invariant
            span.start <= j <= span.end <= chars.len(),
            v@ == chars@.subrange(span.start as int, j as int),
        decreases span.end - j,
    {
        v.push(chars[j]);
        proof {
            assert(chars@.subrange(span.start as int, j + 1) == chars@.subrange(
                span.start as int,
                j as int,
            ).push(chars@[j as int]));
        }
        j += 1;
    }
    v
}

/// The first index at or after `i` where `c` stands in `s`, or the length of
/// `s` where it stands nowhere from there on.
pub open spec fn index_from(s: Seq<char>, c: char, i: int) -> int
    decreases s.len() - i,
{
    if i >= s.len() || s[i] == c {
        i
    } else {
        index_from(s, c, i + 1)
    }
}

/// The first index where `c` stands in `s`, or the length of `s`.
pub open spec fn first_index(s: Seq<char>, c: char) -> int {
    index_from(s, c, 0)
}

/// Finds the first `c` in `chars`.
pub fn find_char(chars: &Vec<char>, c: char) -> (p: usize)
    ensures
        p == first_index(chars@, c),
        p <= chars.len(),
{
    let mut p: usize = 0;
    while p < chars.len() && chars[p] != c
        invariant
            p <= chars.len(),
            index_from(chars@, c, p as int) == first_index(chars@, c),
        decreases chars.len() - p,
    {
        p += 1;
    }
    p
}

/// `index_from` stops at the first `c` at or after `i`, and at the end of `s`
/// where there is none.
pub proof fn lemma_index_from(s: Seq<char>, c: char, i: int)
    requires
        0 <= i <= s.len(),
    ensures
        i <= index_from(s, c, i) <= s.len(),
        index_from(s, c, i) < s.len() ==> s[index_from(s, c, i)] == c,
        forall|j: int| i <= j < index_from(s, c, i) ==> s[j] != c,
    decreases s.len() - i,
{
    if i < s.len() && s[i] != c {
        lemma_index_from(s, c, i + 1);
    }
}

/// The first index of `c` is `k` where `c` stands at `k` and nowhere before
/// it, and the length of `s` where `c` stands nowhere.
pub proof fn lemma_first_index_is(s: Seq<char>, c: char, k: int)
    requires
        0 <= k <= s.len(),
        forall|j: int| 0 <= j < k ==> s[j] != c,
        k < s.len() ==> s[k] == c,
    ensures
        first_index(s, c) == k,
{
    lemma_index_from(s, c, 0);
}

/// The first index at or after `i` where `pattern` stands in `s`, or the
/// length of `s` where it stands nowhere from there on.
pub open spec fn find_from(s: Seq<char>, pattern: Seq<char>, i: int) -> int
    decreases s.len() - i,
{
    if i < 0 || i + pattern.len() > s.len() {
        s.len() as int
    } else if s.subrange(i, i + pattern.len()) =~= pattern {
        i
    } else {
        find_from(s, pattern, i + 1)
    }
}

/// Finds the first place where `pattern` stands in `chars`.
pub fn find_text(chars: &Vec<char>, pattern: &str) -> (p: usize)
    ensures
        p == find_from(chars@, pattern@, 0),
        p <= chars.len(),
{
    let n = pattern.unicode_len();
    let mut p: usize = 0;
    while chars.len() - p >= n
        invariant
            p <= chars.len(),
            n == pattern@.len(),
            find_from(chars@, pattern@, p as int) == find_from(chars@, pattern@, 0),
        decreases chars.len() - p,
    {
        if span_is(chars, Span { start: p, end: p + n }, pattern) {
            return p;
        }
        if p == chars.len() {
            proof {
                assert(chars@.subrange(p as int, p + n) =~= pattern@);
            }
            return p;
        }
        p += 1;
    }
    chars.len()
}

/// `s` without the white space that opens it.
pub open spec fn trim_start(s: Seq<char>) -> Seq<char>
    decreases s.len(),
{
    if s.len() > 0 && is_space(s[0]) {
        trim_start(s.drop_first())
    } else {
        s
    }
}

/// `s` without the white space that closes it.
pub open spec fn trim_end(s: Seq<char>) -> Seq<char>
    decreases s.len(),
{
    if s.len() > 0 && is_space(s.last()) {
        trim_end(s.drop_last())
    } else {
        s
    }
}

/// `s` without the white space at both of its ends.
pub open spec fn trimmed(s: Seq<char>) -> Seq<char> {
    trim_end(trim_start(s))
}

/// Where the text of `chars` between `from` and `to` stands once the white
/// space at both of its ends is left out.
pub fn trim_within(chars: &Vec<char>, from: usize, to: usize) -> (span: Span)
    requires
        from <= to <= chars.len(),
    ensures
        from <= span.start <= span.end <= to,
        span_text(chars@, span) == trimmed(chars@.subrange(from as int, to as int)),
{
    let ghost piece = chars@.subrange(from as int, to as int);
    let mut start: usize = from;
    proof {
        assert(piece.skip(0) == piece);
    }
    while start < to && is_whitespace(chars[start])
        invariant
            from <= start <= to <= chars.len(),
            piece == chars@.subrange(from as int, to as int),
            trim_start(piece) == trim_start(piece.skip(start - from)),
        decreases to - start,
    {
        proof {
            assert(piece.skip(start - from).drop_first() == piece.skip(start - from + 1));
            assert(piece.skip(start - from)[0] == chars@[start as int]);
        }
        start += 1;
    }
    proof {
        if start < to {
            assert(piece.skip(start - from)[0] == chars@[start as int]);
        }
        assert(trim_start(piece) == piece.skip(start - from));
        assert(piece.skip(start - from) == chars@.subrange(start as int, to as int));
    }
    let mut end: usize = to;
    while end > start && is_whitespace(chars[end - 1])
        invariant
            from <= start <= end <= to <= chars.len(),
            piece == chars@.subrange(from as int, to as int),
            trimmed(piece) == trim_end(chars@.subrange(start as int, end as int)),
        decreases end,
    {
        proof {
            assert(chars@.subrange(start as int, end as int).drop_last() == chars@.subrange(
                start as int,
                end - 1,
            ));
        }
        end -= 1;
    }
    Span { start, end }
}

} // verus!
