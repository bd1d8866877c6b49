//! Laws of the substitution passes and of asset selection.

use vstd::prelude::*;

use crate::matcher::{first_found, regex_finds};
use crate::pattern::{pass, stripped, substituted, token_at, token_end, unless_given, OverridesModel};
use crate::text::{occurs_at, replaced};
use crate::version::{in_class, run_end, CharClass};

verus! {

/// `s` is a wildcard token: `{`, word characters, `}`.
pub open spec fn is_token(s: Seq<char>) -> bool {
    &&& s.len() >= 2
    &&& s[0] == '{'
    &&& s[s.len() - 1] == '}'
    &&& forall|i: int| 1 <= i < s.len() - 1 ==> in_class(#[trigger] s[i], CharClass::Word)
}

pub open spec fn has_no_brace(s: Seq<char>) -> bool {
    forall|i: int| 0 <= i < s.len() ==> #[trigger] s[i] != '{'
}

/// A text without `{` holds no token, so a pass over it changes nothing.
pub proof fn lemma_replaced_without_brace(s: Seq<char>, tok: Seq<char>, v: Seq<char>)
    requires
        has_no_brace(s),
        tok.len() > 0,
        tok[0] == '{',
    ensures
        replaced(s, tok, v) == s,
    decreases s.len(),
{
    if s.len() > 0 {
        assert(!occurs_at(s, 0, tok)) by {
            if occurs_at(s, 0, tok) {
                assert(s.subrange(0, tok.len() as int)[0] == s[0]);
            }
        }
        lemma_replaced_without_brace(s.skip(1), tok, v);
        assert(seq![s[0]] + s.skip(1) =~= s);
    }
}

/// A text without `{` holds no token to delete.
pub proof fn lemma_stripped_without_brace(s: Seq<char>)
    requires
        has_no_brace(s),
    ensures
        stripped(s) == s,
    decreases s.len(),
{
    if s.len() > 0 {
        assert(!token_at(s, 0));
        lemma_stripped_without_brace(s.skip(1));
        assert(seq![s[0]] + s.skip(1) =~= s);
    }
}

/// A pass for one token leaves a different token as it is.
pub proof fn lemma_other_token_kept(p: Seq<char>, tok: Seq<char>, v: Option<Seq<char>>)
    requires
        is_token(p),
        is_token(tok),
        p != tok,
    ensures
        pass(p, tok, v) == p,
{
    if let Some(x) = v {
        let m = tok.len() as int;
        assert(!occurs_at(p, 0, tok)) by {
            if occurs_at(p, 0, tok) {
                assert(p.subrange(0, m)[m - 1] == p[m - 1]);
                if m < p.len() {
                    assert(in_class(p[m - 1], CharClass::Word));
                }
                assert(p =~= tok);
            }
        }
        assert(has_no_brace(p.skip(1))) by {
            assert forall|i: int| 0 <= i < p.skip(1).len() implies #[trigger] p.skip(1)[i]
                != '{' by {
                assert(p.skip(1)[i] == p[i + 1]);
                if i + 1 < p.len() - 1 {
                    assert(in_class(p[i + 1], CharClass::Word));
                }
            }
        }
        lemma_replaced_without_brace(p.skip(1), tok, x);
        assert(seq![p[0]] + p.skip(1) =~= p);
    }
}

/// A pass over a text without `{` changes nothing.
pub proof fn lemma_pass_without_brace(s: Seq<char>, tok: Seq<char>, v: Option<Seq<char>>)
    requires
        has_no_brace(s),
        tok.len() > 0,
        tok[0] == '{',
    ensures
        pass(s, tok, v) == s,
{
    if let Some(x) = v {
        lemma_replaced_without_brace(s, tok, x);
    }
}

proof fn lemma_run_end_to(s: Seq<char>, j: int, e: int)
    requires
        0 <= j <= e < s.len(),
        forall|i: int| j <= i < e ==> in_class(#[trigger] s[i], CharClass::Word),
        !in_class(s[e], CharClass::Word),
    ensures
        run_end(s, j, CharClass::Word) == e,
    decreases e - j,
{
    if j < e {
        lemma_run_end_to(s, j + 1, e);
    }
}

/// A token alone is deleted whole.
pub proof fn lemma_token_stripped(p: Seq<char>)
    requires
        is_token(p),
    ensures
        stripped(p) == Seq::<char>::empty(),
{
    lemma_run_end_to(p, 1, p.len() - 1);
    assert(token_at(p, 0));
    assert(p.skip(token_end(p, 0)) =~= Seq::<char>::empty());
    assert(stripped(Seq::<char>::empty()) == Seq::<char>::empty());
}

proof fn lemma_fixed_tokens()
    ensures
        is_token("{major}"@),
        is_token("{minor}"@),
        is_token("{patch}"@),
        is_token("{pre}"@),
        is_token("{tag}"@),
{
    reveal_strlit("{major}");
    reveal_strlit("{minor}");
    reveal_strlit("{patch}");
    reveal_strlit("{pre}");
    reveal_strlit("{tag}");
}

/// A token of a name that no pass knows (not `major`, `minor`, `patch`,
/// `pre` or `tag`) stays verbatim unless unknown tokens are cleared, and
/// is deleted when they are, whatever the tag and the caller's values.
pub proof fn lemma_unknown_token(p: Seq<char>, tag: Seq<char>, ov: OverridesModel)
    requires
        is_token(p),
        p != "{major}"@,
        p != "{minor}"@,
        p != "{patch}"@,
        p != "{pre}"@,
        p != "{tag}"@,
    ensures
        substituted(p, tag, ov, false) == p,
        substituted(p, tag, ov, true) == Seq::<char>::empty(),
{
    lemma_fixed_tokens();
    let d = crate::version::decomposed(tag);
    lemma_other_token_kept(p, "{major}"@, ov.major);
    lemma_other_token_kept(p, "{minor}"@, ov.minor);
    lemma_other_token_kept(p, "{patch}"@, ov.patch);
    lemma_other_token_kept(p, "{pre}"@, ov.pre);
    lemma_other_token_kept(p, "{tag}"@, ov.tag);
    lemma_other_token_kept(p, "{major}"@, unless_given(ov.major, d.major));
    lemma_other_token_kept(p, "{minor}"@, unless_given(ov.minor, d.minor));
    lemma_other_token_kept(p, "{patch}"@, unless_given(ov.patch, d.patch));
    lemma_other_token_kept(p, "{pre}"@, unless_given(ov.pre, d.pre));
    lemma_other_token_kept(p, "{tag}"@, unless_given(ov.tag, Some(tag)));
    lemma_token_stripped(p);
}

/// A caller's major value wins over the tag's: the pattern `{major}`
/// resolves to it whatever the tag, the other values and the clearing
/// policy (for a value without `{`, which no later pass can touch).
pub proof fn lemma_override_wins(tag: Seq<char>, ov: OverridesModel, x: Seq<char>, clear: bool)
    requires
        ov.major == Some(x),
        has_no_brace(x),
    ensures
        substituted("{major}"@, tag, ov, clear) == x,
{
    lemma_fixed_tokens();
    let tok = "{major}"@;
    assert(occurs_at(tok, 0, tok)) by {
        assert(tok.subrange(0, tok.len() as int) =~= tok);
    }
    assert(tok.skip(tok.len() as int) =~= Seq::<char>::empty());
    assert(replaced(Seq::<char>::empty(), tok, x) == Seq::<char>::empty());
    assert(x + Seq::<char>::empty() =~= x);
    assert(pass(tok, tok, ov.major) == x);
    let d = crate::version::decomposed(tag);
    lemma_pass_without_brace(x, "{minor}"@, ov.minor);
    lemma_pass_without_brace(x, "{patch}"@, ov.patch);
    lemma_pass_without_brace(x, "{pre}"@, ov.pre);
    lemma_pass_without_brace(x, "{tag}"@, ov.tag);
    lemma_pass_without_brace(x, "{major}"@, unless_given(ov.major, d.major));
    lemma_pass_without_brace(x, "{minor}"@, unless_given(ov.minor, d.minor));
    lemma_pass_without_brace(x, "{patch}"@, unless_given(ov.patch, d.patch));
    lemma_pass_without_brace(x, "{pre}"@, unless_given(ov.pre, d.pre));
    lemma_pass_without_brace(x, "{tag}"@, unless_given(ov.tag, Some(tag)));
    lemma_stripped_without_brace(x);
}

/// In reverse order, assets are tested from the last one back, so the one
/// chosen is the last asset, in the listed order, whose name is found.
pub proof fn lemma_reverse_takes_last(m: Seq<char>, assets: Seq<crate::matcher::Asset>, k: int)
    requires
        first_found(m, assets, true, k),
    ensures
        regex_finds(m, assets[assets.len() - 1 - k].name@),
        forall|i: int|
            assets.len() - 1 - k < i < assets.len() ==> !regex_finds(m, #[trigger] assets[i].name@),
{
    let n = assets.len() as int;
    assert forall|i: int| n - 1 - k < i < n implies !regex_finds(m, #[trigger] assets[i].name@) by {
        let j = n - 1 - i;
        assert(crate::matcher::tested(n, j, true) == i);
    }
}

} // verus!
