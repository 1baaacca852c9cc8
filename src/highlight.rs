//! Word classification for syntax coloring.
use vstd::prelude::*;
use crate::text::{chars_of, segment_eq};

verus! {

/// The background theme of the viewer.
#[derive(Debug, Clone, Copy, PartialEq, Eq, Structural)]
pub enum Theme {
    Light,
    Dark,
}

impl Default for Theme {
    fn default() -> (r: Self)
        ensures
            r == Theme::Dark,
    {
        Theme::Dark
    }
}

/// The theme a lower-case name selects.
pub open spec fn theme_named(t: Seq<char>) -> Option<Theme> {
    if t == "light"@ {
        Some(Theme::Light)
    } else if t == "dark"@ {
        Some(Theme::Dark)
    } else {
        None
    }
}

/// The theme named exactly `name`: `light` or `dark`.
pub fn theme_from_lower(name: &str) -> (r: Option<Theme>)
    ensures
        r == theme_named(name@),
{
    let v = chars_of(name);
    assert(v@.subrange(0, v@.len() as int) =~= v@);
    if segment_eq(&v, 0, v.len(), "light") {
        Some(Theme::Light)
    } else if segment_eq(&v, 0, v.len(), "dark") {
        Some(Theme::Dark)
    } else {
        None
    }
}

/// What `str::to_lowercase` makes of a text.
pub uninterp spec fn lower_of(s: Seq<char>) -> Seq<char>;

/// Relies on `str::to_lowercase`: the lower-case form of the text.
#[verifier::external_body]
fn lowercase(s: &str) -> (r: String)
    ensures
        r@ == lower_of(s@),
{
    s.to_lowercase()
}

/// The theme a name selects, in any letter case; `None` for an unknown name.
pub fn parse_theme(name: &str) -> (r: Option<Theme>)
    ensures
        r == theme_named(lower_of(name@)),
{
    let lower = lowercase(name);
    theme_from_lower(lower.as_str())
}

/// The display style that classification gives a word.
#[derive(Debug, Clone, Copy, PartialEq, Eq, Structural)]
pub enum StyleTag {
    Keyword,
    DeclaredName,
    BoundName,
    Plain,
    Comment,
}

/// The reserved words.
pub open spec fn is_keyword(w: Seq<char>) -> bool {
    w == "fn"@ || w == "mut"@ || w == "if"@ || w == "else"@ || w == "while"@ || w == "let"@
        || w == "use"@ || w == "mod"@ || w == "struct"@ || w == "impl"@ || w == "pub"@
        || w == "self"@
}

/// Words after which the next word is a bound name.
pub open spec fn is_binder(w: Seq<char>) -> bool {
    w == "let"@ || w == "mut"@ || w == "struct"@ || w == "impl"@
}

/// The style of `word` when it follows `previous`.
pub open spec fn classify(word: Seq<char>, previous: Seq<char>) -> StyleTag {
    if is_keyword(word) {
        StyleTag::Keyword
    } else if previous == "fn"@ {
        StyleTag::DeclaredName
    } else if is_binder(previous) {
        StyleTag::BoundName
    } else {
        StyleTag::Plain
    }
}

/// A reserved word is a keyword whatever word comes before it.
pub proof fn lemma_keyword_any_context(word: Seq<char>, previous: Seq<char>)
    requires
        is_keyword(word),
    ensures
        classify(word, previous) == StyleTag::Keyword,
{
}

/// A word that is not reserved is a declared name after `fn`, a bound name
/// after `let`, `mut`, `struct` or `impl`, and plain after anything else.
pub proof fn lemma_non_keyword_context(word: Seq<char>, previous: Seq<char>)
    requires
        !is_keyword(word),
    ensures
        classify(word, "fn"@) == StyleTag::DeclaredName,
        is_binder(previous) ==> classify(word, previous) == StyleTag::BoundName,
        previous != "fn"@ && !is_binder(previous) ==> classify(word, previous) == StyleTag::Plain,
{
    reveal_strlit("fn");
    reveal_strlit("let");
    reveal_strlit("mut");
    reveal_strlit("struct");
    reveal_strlit("impl");
    assert("fn"@.len() == 2);
    assert("let"@.len() == 3 && "mut"@.len() == 3);
    assert("struct"@.len() == 6 && "impl"@.len() == 4);
}

fn segment_is_keyword(v: &Vec<char>, lo: usize, hi: usize) -> (r: bool)
    requires
        lo <= hi <= v@.len(),
    ensures
        r == is_keyword(v@.subrange(lo as int, hi as int)),
{
    segment_eq(v, lo, hi, "fn") || segment_eq(v, lo, hi, "mut") || segment_eq(v, lo, hi, "if")
        || segment_eq(v, lo, hi, "else") || segment_eq(v, lo, hi, "while") || segment_eq(
        v,
        lo,
        hi,
        "let",
    ) || segment_eq(v, lo, hi, "use") || segment_eq(v, lo, hi, "mod") || segment_eq(
        v,
        lo,
        hi,
        "struct",
    ) || segment_eq(v, lo, hi, "impl") || segment_eq(v, lo, hi, "pub") || segment_eq(
        v,
        lo,
        hi,
        "self",
    )
}

fn segment_is_binder(v: &Vec<char>, lo: usize, hi: usize) -> (r: bool)
    requires
        lo <= hi <= v@.len(),
    ensures
        r == is_binder(v@.subrange(lo as int, hi as int)),
{
    segment_eq(v, lo, hi, "let") || segment_eq(v, lo, hi, "mut") || segment_eq(v, lo, hi, "struct")
        || segment_eq(v, lo, hi, "impl")
}

/// Classifies the word `v[lo..hi]` following the word `p[plo..phi]`.
pub fn classify_segment(
    v: &Vec<char>,
    lo: usize,
    hi: usize,
    p: &Vec<char>,
    plo: usize,
    phi: usize,
) -> (r: StyleTag)
    requires
        lo <= hi <= v@.len(),
        plo <= phi <= p@.len(),
    ensures
        r == classify(v@.subrange(lo as int, hi as int), p@.subrange(plo as int, phi as int)),
{
    if segment_is_keyword(v, lo, hi) {
        StyleTag::Keyword
    } else if segment_eq(p, plo, phi, "fn") {
        StyleTag::DeclaredName
    } else if segment_is_binder(p, plo, phi) {
        StyleTag::BoundName
    } else {
        StyleTag::Plain
    }
}

/// The style of `word` when the word before it is `previous`: keywords are
/// recognised by exact, case-sensitive match.
pub fn highlight(word: &str, previous: &str) -> (r: StyleTag)
    ensures
        r == classify(word@, previous@),
{
    let v = chars_of(word);
    let p = chars_of(previous);
    assert(v@.subrange(0, v@.len() as int) =~= v@);
    assert(p@.subrange(0, p@.len() as int) =~= p@);
    classify_segment(&v, 0, v.len(), &p, 0, p.len())
}

} // verus!
