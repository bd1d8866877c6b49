//! Decomposition of a release tag into version components.
//!
//! The grammar is a heuristic, not a semantic-versioning parser: the first
//! run of ASCII digits is the major number; a separator (`.`, `-` or `_`)
//! and digits give the minor number; another separator and digits give the
//! patch number; and, after the minor number, an optional separator and a
//! run of ASCII letters and digits give the pre-release label.

use vstd::prelude::*;
use vstd::string::*;

verus! {

/// The classes of characters the tag and token grammars are made of.
#[derive(Clone, Copy, PartialEq, Eq, Structural, Debug)]
pub enum CharClass {
    Digit,
    NonDigit,
    Alnum,
    Word,
}

pub open spec fn is_digit(c: char) -> bool {
    '0' <= c && c <= '9'
}

pub open spec fn is_alnum(c: char) -> bool {
    is_digit(c) || ('a' <= c && c <= 'z') || ('A' <= c && c <= 'Z')
}

/// Whether `regex_syntax::is_word_character` holds of `c`.
pub uninterp spec fn unicode_word(c: char) -> bool;

pub open spec fn is_ascii_char(c: char) -> bool {
    c < '\u{80}'
}

/// A word character in the Unicode sense of regular expressions' `\w`:
/// on ASCII, `[0-9A-Za-z_]`.
pub open spec fn is_word_char(c: char) -> bool {
    if is_ascii_char(c) {
        is_alnum(c) || c == '_'
    } else {
        unicode_word(c)
    }
}

/// Relies on `regex_syntax::is_word_character`, the class of `\w` (the
/// `unicode-perl` feature is on, so it does not panic). On ASCII it is
/// `[0-9A-Za-z_]`: letters are alphabetic, digits decimal numbers, and `_`
/// connector punctuation.
#[verifier::external_body]
fn is_word_character(c: char) -> (r: bool)
    ensures
        r == unicode_word(c),
        is_ascii_char(c) ==> (r == (is_alnum(c) || c == '_')),
{
    regex_syntax::is_word_character(c)
}

pub open spec fn is_separator(c: char) -> bool {
    c == '.' || c == '-' || c == '_'
}

pub open spec fn in_class(c: char, k: CharClass) -> bool {
    match k {
        CharClass::Digit => is_digit(c),
        CharClass::NonDigit => !is_digit(c),
        CharClass::Alnum => is_alnum(c),
        CharClass::Word => is_word_char(c),
    }
}

/// The end of the longest run of characters of class `k` that starts at `j`.
pub open spec fn run_end(s: Seq<char>, j: int, k: CharClass) -> int
    decreases s.len() - j,
{
    if 0 <= j < s.len() && in_class(s[j], k) {
        run_end(s, j + 1, k)
    } else {
        j
    }
}

pub proof fn lemma_run_end_bounds(s: Seq<char>, j: int, k: CharClass)
    requires
        0 <= j <= s.len(),
    ensures
        j <= run_end(s, j, k) <= s.len(),
        forall|i: int| j <= i < run_end(s, j, k) ==> in_class(#[trigger] s[i], k),
        run_end(s, j, k) < s.len() ==> !in_class(s[run_end(s, j, k)], k),
    decreases s.len() - j,
{
    if j < s.len() && in_class(s[j], k) {
        lemma_run_end_bounds(s, j + 1, k);
    }
}

/// A separator at `i` followed by a character of class `k`.
pub open spec fn separated(s: Seq<char>, i: int, k: CharClass) -> bool {
    0 <= i && i + 1 < s.len() && is_separator(s[i]) && in_class(s[i + 1], k)
}

/// The components of a version tag, as character sequences.
pub struct VersionModel {
    pub major: Option<Seq<char>>,
    pub minor: Option<Seq<char>>,
    pub patch: Option<Seq<char>>,
    pub pre: Option<Seq<char>>,
}

/// The pre-release label that may follow position `d` of `t`.
pub open spec fn pre_after(t: Seq<char>, d: int) -> Option<Seq<char>> {
    if separated(t, d, CharClass::Alnum) {
        Some(t.subrange(d + 1, run_end(t, d + 1, CharClass::Alnum)))
    } else if 0 <= d < t.len() && is_alnum(t[d]) {
        Some(t.subrange(d, run_end(t, d, CharClass::Alnum)))
    } else {
        None
    }
}

/// What the tag grammar takes from `t`, at its first match.
pub open spec fn decomposed(t: Seq<char>) -> VersionModel {
    let a = run_end(t, 0, CharClass::NonDigit);
    let b = run_end(t, a, CharClass::Digit);
    let c = run_end(t, b + 1, CharClass::Digit);
    let d = run_end(t, c + 1, CharClass::Digit);
    if a >= t.len() {
        VersionModel { major: None, minor: None, patch: None, pre: None }
    } else if !separated(t, b, CharClass::Digit) {
        VersionModel { major: Some(t.subrange(a, b)), minor: None, patch: None, pre: None }
    } else if !separated(t, c, CharClass::Digit) {
        VersionModel {
            major: Some(t.subrange(a, b)),
            minor: Some(t.subrange(b + 1, c)),
            patch: None,
            pre: pre_after(t, c),
        }
    } else {
        VersionModel {
            major: Some(t.subrange(a, b)),
            minor: Some(t.subrange(b + 1, c)),
            patch: Some(t.subrange(c + 1, d)),
            pre: pre_after(t, d),
        }
    }
}

/// The version components found in a tag; an absent one was not matched.
pub struct VersionComponents {
    pub major: Option<String>,
    pub minor: Option<String>,
    pub patch: Option<String>,
    pub pre: Option<String>,
}

pub open spec fn opt_view(o: Option<String>) -> Option<Seq<char>> {
    match o {
        Some(s) => Some(s@),
        None => None,
    }
}

impl View for VersionComponents {
    type V = VersionModel;

    open spec fn view(&self) -> VersionModel {
        VersionModel {
            major: opt_view(self.major),
            minor: opt_view(self.minor),
            patch: opt_view(self.patch),
            pre: opt_view(self.pre),
        }
    }
}

pub fn char_in_class(c: char, k: CharClass) -> (r: bool)
    ensures
        r == in_class(c, k),
{
    let digit = '0' <= c && c <= '9';
    let alnum = digit || ('a' <= c && c <= 'z') || ('A' <= c && c <= 'Z');
    match k {
        CharClass::Digit => digit,
        CharClass::NonDigit => !digit,
        CharClass::Alnum => alnum,
        CharClass::Word => is_word_character(c),
    }
}

/// The end of the run of class `k` in `s` (of `n` characters) from `j`.
pub fn scan_run(s: &str, n: usize, j: usize, k: CharClass) -> (r: usize)
    requires
        n == s@.len(),
        j <= n,
    ensures
        r as int == run_end(s@, j as int, k),
        j <= r <= n,
{
    let mut i = j;
    while i < n && char_in_class(s.get_char(i), k)
        invariant
            n == s@.len(),
            j <= i <= n,
            run_end(s@, i as int, k) == run_end(s@, j as int, k),
        decreases n - i,
    {
        i += 1;
    }
    i
}

/// Whether a separator at `i` of `s` is followed by a character of class `k`.
pub fn separated_at(s: &str, n: usize, i: usize, k: CharClass) -> (r: bool)
    requires
        n == s@.len(),
        i <= n,
    ensures
        r == separated(s@, i as int, k),
{
    if n > 0 && i < n - 1 {
        let c = s.get_char(i);
        (c == '.' || c == '-' || c == '_') && char_in_class(s.get_char(i + 1), k)
    } else {
        false
    }
}

fn piece(s: &str, from: usize, to: usize) -> (r: String)
    requires
        from <= to <= s@.len(),
    ensures
        r@ == s@.subrange(from as int, to as int),
{
    String::from_str(s.substring_char(from, to))
}

fn pre_label(t: &str, n: usize, d: usize) -> (r: Option<String>)
    requires
        n == t@.len(),
        d <= n,
    ensures
        opt_view(r) == pre_after(t@, d as int),
{
    if separated_at(t, n, d, CharClass::Alnum) {
        let e = scan_run(t, n, d + 1, CharClass::Alnum);
        Some(piece(t, d + 1, e))
    } else if d < n && char_in_class(t.get_char(d), CharClass::Alnum) {
        let e = scan_run(t, n, d, CharClass::Alnum);
        Some(piece(t, d, e))
    } else {
        None
    }
}

/// Splits a tag into major, minor, patch and pre-release components.
pub fn decompose(tag: &str) -> (r: VersionComponents)
    ensures
        r@ == decomposed(tag@),
{
    let t = tag;
    let n = t.unicode_len();
    let a = scan_run(t, n, 0, CharClass::NonDigit);
    if a >= n {
        return VersionComponents { major: None, minor: None, patch: None, pre: None };
    }
    let b = scan_run(t, n, a, CharClass::Digit);
    let major = Some(piece(t, a, b));
    if !separated_at(t, n, b, CharClass::Digit) {
        return VersionComponents { major, minor: None, patch: None, pre: None };
    }
    let c = scan_run(t, n, b + 1, CharClass::Digit);
    let minor = Some(piece(t, b + 1, c));
    if !separated_at(t, n, c, CharClass::Digit) {
        let pre = pre_label(t, n, c);
        return VersionComponents { major, minor, patch: None, pre };
    }
    let d = scan_run(t, n, c + 1, CharClass::Digit);
    let patch = Some(piece(t, c + 1, d));
    let pre = pre_label(t, n, d);
    VersionComponents { major, minor, patch, pre }
}

} // verus!
