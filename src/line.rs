//! Splitting one line of text into styled spans.
use vstd::prelude::*;
use crate::highlight::{classify, classify_segment, StyleTag};
use crate::text::{chars_of, is_whitespace, is_ws};

verus! {

/// A run of characters `start..end` of a line (counted in characters), with
/// the style it is shown in; `None` is unstyled text.
#[derive(Debug, Clone, Copy, PartialEq, Eq, Structural)]
pub struct Span {
    pub start: usize,
    pub end: usize,
    pub tag: Option<StyleTag>,
}

impl View for Span {
    type V = (int, int, Option<StyleTag>);

    open spec fn view(&self) -> (int, int, Option<StyleTag>) {
        (self.start as int, self.end as int, self.tag)
    }
}

/// One highlighted line of the document: its 1-based number and its spans.
#[derive(Debug, PartialEq, Eq)]
pub struct LineRecord {
    pub line_number: usize,
    pub spans: Vec<Span>,
}

pub open spec fn spans_view(v: Seq<Span>) -> Seq<(int, int, Option<StyleTag>)> {
    v.map_values(|s: Span| s@)
}

/// The index of the first whitespace character of `line` at or after `i`,
/// or the line's length when there is none.
pub open spec fn next_ws(line: Seq<char>, i: int) -> int
    decreases line.len() - i,
{
    if i >= line.len() {
        line.len() as int
    } else if is_ws(line[i]) {
        i
    } else {
        next_ws(line, i + 1)
    }
}

/// The spans of `line` from `start` on, where `previous` is the word that
/// ended just before `start`: each word followed by whitespace is classified
/// against the word before it and followed by the whitespace character as
/// its own unstyled span; the text after the last whitespace is unstyled.
pub open spec fn word_spans(line: Seq<char>, start: int, previous: Seq<char>) -> Seq<
    (int, int, Option<StyleTag>),
>
    decreases line.len() - start,
{
    let k = next_ws(line, start);
    if k >= line.len() || k < start {
        seq![(start, line.len() as int, None)]
    } else {
        let word = line.subrange(start, k);
        seq![(start, k, Some(classify(word, previous))), (k, k + 1, None)] + word_spans(
            line,
            k + 1,
            word,
        )
    }
}

/// The index of the first non-whitespace character at or after `i`.
pub open spec fn next_non_ws(line: Seq<char>, i: int) -> int
    decreases line.len() - i,
{
    if i >= line.len() {
        line.len() as int
    } else if !is_ws(line[i]) {
        i
    } else {
        next_non_ws(line, i + 1)
    }
}

/// One past the last non-whitespace character before `k`, or 0.
pub open spec fn end_non_ws(line: Seq<char>, k: int) -> int
    decreases k,
{
    if k <= 0 {
        0
    } else if !is_ws(line[k - 1]) {
        k
    } else {
        end_non_ws(line, k - 1)
    }
}

/// `line` without its leading and trailing whitespace.
pub open spec fn trimmed(line: Seq<char>) -> Seq<char> {
    let lo = next_non_ws(line, 0);
    let hi = end_non_ws(line, line.len() as int);
    if hi <= lo {
        Seq::empty()
    } else {
        line.subrange(lo, hi)
    }
}

pub open spec fn starts_with2(t: Seq<char>, a: char, b: char) -> bool {
    t.len() >= 2 && t[0] == a && t[1] == b
}

pub open spec fn ends_with2(t: Seq<char>, a: char, b: char) -> bool {
    t.len() >= 2 && t[t.len() - 2] == a && t[t.len() - 1] == b
}

/// A line shown wholly as a comment: trimmed, it starts with `//` or `/*`,
/// or ends with `*/`.
pub open spec fn is_comment_line(line: Seq<char>) -> bool {
    let t = trimmed(line);
    starts_with2(t, '/', '/') || starts_with2(t, '/', '*') || ends_with2(t, '*', '/')
}

/// The spans of a whole line.
pub open spec fn line_spans(line: Seq<char>) -> Seq<(int, int, Option<StyleTag>)> {
    if is_comment_line(line) {
        seq![(0, line.len() as int, Some(StyleTag::Comment))]
    } else {
        word_spans(line, 0, Seq::empty())
    }
}

/// A line that starts with `//` once trimmed is one comment span over the
/// whole line, whatever words it holds.
pub proof fn lemma_comment_line_whole(line: Seq<char>)
    requires
        starts_with2(trimmed(line), '/', '/'),
    ensures
        line_spans(line) == seq![(0int, line.len() as int, Some(StyleTag::Comment))],
{
}

proof fn lemma_next_ws_skip(line: Seq<char>, start: int, i: int)
    requires
        0 <= start <= i <= line.len(),
        forall|j: int| start <= j < i ==> !is_ws(line[j]),
    ensures
        next_ws(line, start) == next_ws(line, i),
    decreases i - start,
{
    if start < i {
        lemma_next_ws_skip(line, start + 1, i);
    }
}

proof fn lemma_next_non_ws_skip(line: Seq<char>, start: int, i: int)
    requires
        0 <= start <= i <= line.len(),
        forall|j: int| start <= j < i ==> is_ws(line[j]),
    ensures
        next_non_ws(line, start) == next_non_ws(line, i),
    decreases i - start,
{
    if start < i {
        lemma_next_non_ws_skip(line, start + 1, i);
    }
}

proof fn lemma_end_non_ws_skip(line: Seq<char>, j: int, k: int)
    requires
        0 <= j <= k <= line.len(),
        forall|m: int| j <= m < k ==> is_ws(line[m]),
    ensures
        end_non_ws(line, k) == end_non_ws(line, j),
    decreases k - j,
{
    if j < k {
        lemma_end_non_ws_skip(line, j, k - 1);
    }
}

fn trim_bounds(v: &Vec<char>) -> (r: (usize, usize))
    ensures
        r.0 == next_non_ws(v@, 0),
        r.1 == end_non_ws(v@, v@.len() as int),
        r.0 <= v@.len(),
        r.1 <= v@.len(),
{
    let n = v.len();
    let mut lo: usize = 0;
    while lo < n && is_whitespace(v[lo])
        invariant
            n == v@.len(),
            lo <= n,
            forall|j: int| 0 <= j < lo ==> is_ws(v@[j]),
        decreases n - lo,
    {
        lo = lo + 1;
    }
    proof {
        lemma_next_non_ws_skip(v@, 0, lo as int);
    }
    let mut hi: usize = n;
    while hi > 0 && is_whitespace(v[hi - 1])
        invariant
            n == v@.len(),
            hi <= n,
            forall|m: int| hi <= m < n ==> is_ws(v@[m]),
        decreases hi,
    {
        hi = hi - 1;
    }
    proof {
        lemma_end_non_ws_skip(v@, hi as int, n as int);
    }
    (lo, hi)
}

/// Whether `v`, trimmed, is a comment line.
pub fn comment_line(v: &Vec<char>) -> (r: bool)
    ensures
        r == is_comment_line(v@),
{
    let (lo, hi) = trim_bounds(v);
    let t = Ghost(trimmed(v@));
    if hi <= lo || hi - lo < 2 {
        assert(t@.len() < 2);
        false
    } else {
        assert(t@ == v@.subrange(lo as int, hi as int));
        (v[lo] == '/' && v[lo + 1] == '/') || (v[lo] == '/' && v[lo + 1] == '*') || (v[hi - 2]
            == '*' && v[hi - 1] == '/')
    }
}

/// The unstyled-or-classified word spans of `v`.
fn split_words(v: &Vec<char>) -> (r: Vec<Span>)
    ensures
        spans_view(r@) == word_spans(v@, 0, Seq::empty()),
{
    let n = v.len();
    let mut spans: Vec<Span> = Vec::new();
    let mut start: usize = 0;
    let mut plo: usize = 0;
    let mut phi: usize = 0;
    let mut i: usize = 0;
    assert(v@.subrange(0, 0) =~= Seq::<char>::empty());
    while i < n
        invariant
            n == v@.len(),
            start <= i <= n,
            plo <= phi <= n,
            forall|j: int| start <= j < i ==> !is_ws(v@[j]),
            spans_view(spans@) + word_spans(v@, start as int, v@.subrange(plo as int, phi as int))
                == word_spans(v@, 0, Seq::empty()),
        decreases n - i,
    {
        if is_whitespace(v[i]) {
            proof {
                lemma_next_ws_skip(v@, start as int, i as int);
            }
            let tag = classify_segment(v, start, i, v, plo, phi);
            let ghost before = spans@;
            spans.push(Span { start, end: i, tag: Some(tag) });
            spans.push(Span { start: i, end: i + 1, tag: None });
            proof {
                assert(spans_view(spans@) =~= spans_view(before) + seq![
                    (start as int, i as int, Some(tag)),
                    (i as int, i + 1, None),
                ]);
            }
            plo = start;
            phi = i;
            start = i + 1;
            assert(spans_view(spans@) + word_spans(
                v@,
                start as int,
                v@.subrange(plo as int, phi as int),
            ) =~= word_spans(v@, 0, Seq::empty()));
        }
        i = i + 1;
    }
    proof {
        lemma_next_ws_skip(v@, start as int, n as int);
    }
    let ghost before = spans@;
    spans.push(Span { start, end: n, tag: None });
    assert(spans_view(spans@) =~= spans_view(before) + seq![(start as int, n as int, None)]);
    spans
}

/// Highlights one line of text shown as line `line_number`: a comment line is
/// one comment span, any other line is split into words and whitespace.
pub fn highlight_line(line: &str, line_number: usize) -> (r: LineRecord)
    ensures
        r.line_number == line_number,
        spans_view(r.spans@) == line_spans(line@),
{
    let v = chars_of(line);
    if comment_line(&v) {
        let spans = vec![Span { start: 0, end: v.len(), tag: Some(StyleTag::Comment) }];
        assert(spans_view(spans@) =~= line_spans(line@));
        LineRecord { line_number, spans }
    } else {
        LineRecord { line_number, spans: split_words(&v) }
    }
}

/// The number of decimal digits of `n`.
pub open spec fn num_digits(n: nat) -> nat
    decreases n,
{
    if n < 10 {
        1
    } else {
        1 + num_digits(n / 10)
    }
}

/// The width of the line-number gutter for a document of `total` lines.
pub fn gutter_width(total: usize) -> (r: usize)
    ensures
        r == num_digits(total as nat),
{
    let mut n: usize = total;
    let mut w: usize = 1;
    while n >= 10
        invariant
            w + num_digits(n as nat) == 1 + num_digits(total as nat),
            w >= 1,
            w + n <= total + 1,
        decreases n,
    {
        proof {
            lemma_digits_bound(n as nat);
        }
        n = n / 10;
        w = w + 1;
    }
    w
}

proof fn lemma_digits_bound(n: nat)
    ensures
        num_digits(n) >= 1,
    decreases n,
{
    if n >= 10 {
        lemma_digits_bound(n / 10);
    }
}

/// The decimal digit character for `d`.
pub open spec fn digit_char(d: nat) -> char {
    if d == 0 {
        '0'
    } else if d == 1 {
        '1'
    } else if d == 2 {
        '2'
    } else if d == 3 {
        '3'
    } else if d == 4 {
        '4'
    } else if d == 5 {
        '5'
    } else if d == 6 {
        '6'
    } else if d == 7 {
        '7'
    } else if d == 8 {
        '8'
    } else {
        '9'
    }
}

/// The decimal form of `n`, without leading zeros.
pub open spec fn decimal(n: nat) -> Seq<char>
    decreases n,
{
    if n < 10 {
        seq![digit_char(n)]
    } else {
        decimal(n / 10).push(digit_char(n % 10))
    }
}

/// The gutter before line `number` in a gutter `width` digits wide: a
/// space, the number right-aligned, and a bar between spaces.
pub open spec fn gutter(number: nat, width: nat) -> Seq<char> {
    let pad = if width > num_digits(number) {
        width - num_digits(number)
    } else {
        0
    };
    seq![' '] + Seq::new(pad as nat, |i: int| ' ') + decimal(number) + seq![' ', '|', ' ']
}

fn digit(d: usize) -> (r: char)
    requires
        d < 10,
    ensures
        r == digit_char(d as nat),
{
    if d == 0 {
        '0'
    } else if d == 1 {
        '1'
    } else if d == 2 {
        '2'
    } else if d == 3 {
        '3'
    } else if d == 4 {
        '4'
    } else if d == 5 {
        '5'
    } else if d == 6 {
        '6'
    } else if d == 7 {
        '7'
    } else if d == 8 {
        '8'
    } else {
        '9'
    }
}

fn push_decimal(out: &mut Vec<char>, n: usize)
    ensures
        final(out)@ == old(out)@ + decimal(n as nat),
    decreases n,
{
    if n >= 10 {
        push_decimal(out, n / 10);
    }
    out.push(digit(n % 10));
    assert(final(out)@ =~= old(out)@ + decimal(n as nat));
}

/// The gutter text before line `number` when the gutter is `width` digits
/// wide.
pub fn gutter_text(number: usize, width: usize) -> (r: Vec<char>)
    ensures
        r@ == gutter(number as nat, width as nat),
{
    let digits = gutter_width(number);
    let pad: usize = if width > digits {
        width - digits
    } else {
        0
    };
    let mut r: Vec<char> = vec![' '];
    let mut i: usize = 0;
    while i < pad
        invariant
            i <= pad,
            r@ == seq![' '] + Seq::new(i as nat, |k: int| ' '),
        decreases pad - i,
    {
        r.push(' ');
        i = i + 1;
        assert(r@ =~= seq![' '] + Seq::new(i as nat, |k: int| ' '));
    }
    push_decimal(&mut r, number);
    r.push(' ');
    r.push('|');
    r.push(' ');
    assert(r@ =~= gutter(number as nat, width as nat));
    r
}

} // verus!
