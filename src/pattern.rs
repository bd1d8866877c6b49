//! Wildcard patterns: the length guard and the substitution passes.

use vstd::prelude::*;
use vstd::string::*;

use crate::error::ResolveError;
use crate::text::{replace_all, replaced};
use crate::version::{
    decompose, decomposed, lemma_run_end_bounds, opt_view, run_end, scan_run, CharClass,
};

verus! {

/// A wildcard token starts at `i` of `s`: `{`, word characters, `}`.
pub open spec fn token_at(s: Seq<char>, i: int) -> bool {
    let e = run_end(s, i + 1, CharClass::Word);
    0 <= i && i < e && e < s.len() && s[i] == '{' && s[e] == '}'
}

/// Where the wildcard token that starts at `i` ends.
pub open spec fn token_end(s: Seq<char>, i: int) -> int {
    run_end(s, i + 1, CharClass::Word) + 1
}

/// `s` with every wildcard token deleted, scanning from the left.
pub open spec fn stripped(s: Seq<char>) -> Seq<char>
    decreases s.len(),
{
    if s.len() == 0 {
        s
    } else if token_at(s, 0) {
        stripped(s.skip(token_end(s, 0)))
    } else {
        seq![s[0]] + stripped(s.skip(1))
    }
}

/// Deletes every wildcard token of `s`.
pub fn strip_tokens(s: &str) -> (r: String)
    ensures
        r@ == stripped(s@),
{
    let n = s.unicode_len();
    let mut out = String::new();
    let mut i: usize = 0;
    assert(s@.skip(0) =~= s@);
    assert(out@ + stripped(s@) =~= stripped(s@));
    while i < n
        invariant
            n == s@.len(),
            i <= n,
            stripped(s@) == out@ + stripped(s@.skip(i as int)),
        decreases n - i,
    {
        let ghost rest = s@.skip(i as int);
        let mut token = false;
        let mut e: usize = i;
        if s.get_char(i) == '{' {
            e = scan_run(s, n, i + 1, CharClass::Word);
            token = e < n && s.get_char(e) == '}';
        }
        proof {
            lemma_run_end_bounds(rest, 1, CharClass::Word);
            lemma_run_end_shift(s@, i as int, 1);
        }
        if token {
            proof {
                assert(token_at(rest, 0));
                assert(rest.skip(token_end(rest, 0)) =~= s@.skip(e + 1));
            }
            i = e + 1;
        } else {
            let c = s.substring_char(i, i + 1);
            proof {
                assert(!token_at(rest, 0));
                assert(rest.skip(1) =~= s@.skip(i + 1));
                assert(c@ =~= seq![rest[0]]);
            }
            let ghost before = out@;
            out.append(c);
            i = i + 1;
            assert(before + (c@ + stripped(s@.skip(i as int))) =~= out@ + stripped(
                s@.skip(i as int),
            ));
        }
    }
    assert(s@.skip(n as int) =~= Seq::<char>::empty());
    out
}

/// A run measured in a suffix of `s` is the run measured in `s`, shifted.
pub proof fn lemma_run_end_shift(s: Seq<char>, i: int, j: int)
    requires
        0 <= i <= s.len(),
        0 <= j,
    ensures
        run_end(s.skip(i), j, CharClass::Word) == run_end(s, i + j, CharClass::Word) - i,
    decreases s.len() - (i + j),
{
    if i + j < s.len() && crate::version::in_class(s[i + j], CharClass::Word) {
        lemma_run_end_shift(s, i, j + 1);
    }
}

/// Fails with `PatternTooLong` when `max_pattern_len` is not negative and
/// the pattern, without its wildcard tokens, has more characters than that.
pub fn pre_check(pattern: &str, max_pattern_len: i32) -> (r: Result<(), ResolveError>)
    ensures
        r is Err <==> (max_pattern_len >= 0 && stripped(pattern@).len() > max_pattern_len),
        r is Err ==> r == Err::<(), ResolveError>(ResolveError::PatternTooLong),
{
    if max_pattern_len < 0 {
        return Ok(());
    }
    let bare = strip_tokens(pattern);
    if bare.as_str().unicode_len() > max_pattern_len as usize {
        Err(ResolveError::PatternTooLong)
    } else {
        Ok(())
    }
}

/// Replacement values given by the caller; each one present wins over the
/// value taken from the tag for the same token.
pub struct Overrides {
    pub major: Option<String>,
    pub minor: Option<String>,
    pub patch: Option<String>,
    pub pre: Option<String>,
    pub tag: Option<String>,
}

pub struct OverridesModel {
    pub major: Option<Seq<char>>,
    pub minor: Option<Seq<char>>,
    pub patch: Option<Seq<char>>,
    pub pre: Option<Seq<char>>,
    pub tag: Option<Seq<char>>,
}

impl View for Overrides {
    type V = OverridesModel;

    open spec fn view(&self) -> OverridesModel {
        OverridesModel {
            major: opt_view(self.major),
            minor: opt_view(self.minor),
            patch: opt_view(self.patch),
            pre: opt_view(self.pre),
            tag: opt_view(self.tag),
        }
    }
}

/// One substitution pass: every `token` replaced by `v`, if there is a `v`.
pub open spec fn pass(s: Seq<char>, token: Seq<char>, v: Option<Seq<char>>) -> Seq<char> {
    match v {
        Some(x) => replaced(s, token, x),
        None => s,
    }
}

/// The value from the tag, unless the caller gave one for the same token.
pub open spec fn unless_given(given: Option<Seq<char>>, v: Option<Seq<char>>) -> Option<Seq<char>> {
    if given is Some {
        None
    } else {
        v
    }
}

/// The pattern after all substitution passes: the caller's values first,
/// then the tag's components and the tag itself for the tokens that the
/// caller left open, then, if `clear_unknown`, every remaining token deleted.
pub open spec fn substituted(
    pattern: Seq<char>,
    tag: Seq<char>,
    ov: OverridesModel,
    clear_unknown: bool,
) -> Seq<char> {
    let s1 = pass(pattern, "{major}"@, ov.major);
    let s2 = pass(s1, "{minor}"@, ov.minor);
    let s3 = pass(s2, "{patch}"@, ov.patch);
    let s4 = pass(s3, "{pre}"@, ov.pre);
    let s5 = pass(s4, "{tag}"@, ov.tag);
    let d = decomposed(tag);
    let s6 = pass(s5, "{major}"@, unless_given(ov.major, d.major));
    let s7 = pass(s6, "{minor}"@, unless_given(ov.minor, d.minor));
    let s8 = pass(s7, "{patch}"@, unless_given(ov.patch, d.patch));
    let s9 = pass(s8, "{pre}"@, unless_given(ov.pre, d.pre));
    let s10 = pass(s9, "{tag}"@, unless_given(ov.tag, Some(tag)));
    if clear_unknown {
        stripped(s10)
    } else {
        s10
    }
}

fn apply_pass(s: String, token: &str, v: &Option<String>) -> (r: String)
    ensures
        r@ == pass(s@, token@, opt_view(*v)),
{
    match v {
        Some(x) => replace_all(s.as_str(), token, x.as_str()),
        None => s,
    }
}

fn apply_fallback(s: String, token: &str, given: &Option<String>, v: &Option<String>) -> (r: String)
    ensures
        r@ == pass(s@, token@, unless_given(opt_view(*given), opt_view(*v))),
{
    match given {
        Some(_) => s,
        None => apply_pass(s, token, v),
    }
}

/// Substitutes the tag's components, the tag and the caller's values into
/// the wildcard tokens of `pattern`.
pub fn replace(pattern: &str, tag: &str, overrides: &Overrides, clear_unknown: bool) -> (r: String)
    ensures
        r@ == substituted(pattern@, tag@, overrides@, clear_unknown),
{
    let s = String::from_str(pattern);
    let s = apply_pass(s, "{major}", &overrides.major);
    let s = apply_pass(s, "{minor}", &overrides.minor);
    let s = apply_pass(s, "{patch}", &overrides.patch);
    let s = apply_pass(s, "{pre}", &overrides.pre);
    let s = apply_pass(s, "{tag}", &overrides.tag);
    let d = decompose(tag);
    let s = apply_fallback(s, "{major}", &overrides.major, &d.major);
    let s = apply_fallback(s, "{minor}", &overrides.minor, &d.minor);
    let s = apply_fallback(s, "{patch}", &overrides.patch, &d.patch);
    let s = apply_fallback(s, "{pre}", &overrides.pre, &d.pre);
    let whole = Some(String::from_str(tag));
    let s = apply_fallback(s, "{tag}", &overrides.tag, &whole);
    if clear_unknown {
        strip_tokens(s.as_str())
    } else {
        s
    }
}

} // verus!
